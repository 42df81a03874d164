//! The load of the processor, of the memory and of the graphics card, read
//! from what `top`, `free` and `nvidia-smi` print.
//!
//! Reading is lenient: where a tool cannot be run, a line or a column is
//! missing, or a number is not one, the reading is absent, with the reason
//! why, and the other readings are not touched by it.

use crate::chars::{span_to_string, to_chars};
use crate::command::{decode_text, CommandOutput, Invocation, SpawnError};
use crate::layout::{
    column_spans, field_spans, line_spans, lines, split, split_whitespace, trim, trim_span,
};
use crate::number::{is_decimal_fraction, parse_i64, span_is_decimal_fraction, span_parse_i64};
use vstd::prelude::*;
use vstd::string::StringExecFns;
use vstd::utf8::{decode_utf8, valid_utf8};

verus! {

/// Why a reading is absent.
#[derive(Clone, Copy, PartialEq, Eq, Structural, Debug)]
pub enum Gap {
    /// The tool could not be started.
    NotRun,
    /// What the tool printed is no UTF-8.
    NotText,
    /// The output has no line at the expected place.
    MissingLine,
    /// The line has fewer columns than expected.
    MissingColumn,
    /// A column holds something else than a number of the expected kind.
    NotANumber,
}

/// The load of the processor.
#[derive(Debug)]
pub struct CpuUsage {
    /// The percentage, in the notation of decimal fractions, as it was printed.
    pub usage: String,
}

/// The use of the memory, in megabytes.
#[derive(Clone, Copy, PartialEq, Eq, Structural, Debug)]
pub struct MemoryUsage {
    pub total: i64,
    pub used: i64,
}

/// The load of the graphics card, its memory in megabytes.
#[derive(Debug)]
pub struct GpuUsage {
    /// The percentage of time in use, in the notation of decimal fractions,
    /// as it was printed.
    pub utilization: String,
    pub memory_used: i64,
    pub memory_total: i64,
}

/// The readings of one round, each with the reason why where it is absent.
#[derive(Debug)]
pub struct SystemMetrics {
    pub cpu: Result<CpuUsage, Gap>,
    pub memory: Result<MemoryUsage, Gap>,
    pub gpu: Result<GpuUsage, Gap>,
}

/// The load of the graphics card as a value of the model.
pub struct GpuReading {
    pub utilization: Seq<char>,
    pub memory_used: i64,
    pub memory_total: i64,
}

impl View for CpuUsage {
    type V = Seq<char>;

    open spec fn view(&self) -> Seq<char> {
        self.usage@
    }
}

impl View for GpuUsage {
    type V = GpuReading;

    open spec fn view(&self) -> GpuReading {
        GpuReading {
            utilization: self.utilization@,
            memory_used: self.memory_used,
            memory_total: self.memory_total,
        }
    }
}

/// The number of the line of `top`'s output that holds the load, counted from 0.
pub const CPU_LINE: usize = 2;

/// The number of the column of that line that holds the load, counted from 0.
pub const CPU_COLUMN: usize = 8;

/// The reason why a reading is absent, in words.
pub open spec fn gap_reason(gap: Gap) -> Seq<char> {
    match gap {
        Gap::NotRun => "the tool could not be started"@,
        Gap::NotText => "the output is not valid UTF-8"@,
        Gap::MissingLine => "the output has too few lines"@,
        Gap::MissingColumn => "the line has too few columns"@,
        Gap::NotANumber => "a column does not hold a number"@,
    }
}

/// The load that `top` printed: the ninth column of the third line, which
/// has to be in the notation of decimal fractions.
pub open spec fn cpu_usage_in(output: Seq<char>) -> Result<Seq<char>, Gap> {
    let all = lines(output);
    if all.len() <= CPU_LINE {
        Err(Gap::MissingLine)
    } else {
        let columns = split_whitespace(all[CPU_LINE as int]);
        if columns.len() <= CPU_COLUMN {
            Err(Gap::MissingColumn)
        } else if !is_decimal_fraction(columns[CPU_COLUMN as int]) {
            Err(Gap::NotANumber)
        } else {
            Ok(columns[CPU_COLUMN as int])
        }
    }
}

/// The use of memory that `free` printed: the second and the third column of
/// the second line, which has to have four columns or more; both have to be
/// integers of 64 bits.
pub open spec fn memory_usage_in(output: Seq<char>) -> Result<MemoryUsage, Gap> {
    let all = lines(output);
    if all.len() < 2 {
        Err(Gap::MissingLine)
    } else {
        let columns = split_whitespace(all[1]);
        if columns.len() < 4 {
            Err(Gap::MissingColumn)
        } else {
            match (parse_i64(columns[1]), parse_i64(columns[2])) {
                (Some(total), Some(used)) => Ok(MemoryUsage { total, used }),
                _ => Err(Gap::NotANumber),
            }
        }
    }
}

/// The load that `nvidia-smi` printed: the first three fields of the first
/// line, parted by a comma and a blank and taken without the white space
/// around them. The first has to be in the notation of decimal fractions,
/// the other two have to be integers of 64 bits.
pub open spec fn gpu_usage_in(output: Seq<char>) -> Result<GpuReading, Gap> {
    let all = lines(output);
    if all.len() < 1 {
        Err(Gap::MissingLine)
    } else {
        let fields = split(all[0], seq![',', ' ']);
        if fields.len() < 3 {
            Err(Gap::MissingColumn)
        } else if !is_decimal_fraction(trim(fields[0])) {
            Err(Gap::NotANumber)
        } else {
            match (parse_i64(trim(fields[1])), parse_i64(trim(fields[2]))) {
                (Some(memory_used), Some(memory_total)) => Ok(
                    GpuReading { utilization: trim(fields[0]), memory_used, memory_total },
                ),
                _ => Err(Gap::NotANumber),
            }
        }
    }
}

/// What the tool of `run` printed, as text.
pub open spec fn printed(run: Result<CommandOutput, SpawnError>) -> Result<Seq<char>, Gap> {
    match run {
        Ok(output) => if valid_utf8(output.stdout@) {
            Ok(decode_utf8(output.stdout@))
        } else {
            Err(Gap::NotText)
        },
        Err(_) => Err(Gap::NotRun),
    }
}

/// What a run of `top` tells of the processor.
pub open spec fn cpu_reading(run: Result<CommandOutput, SpawnError>) -> Result<Seq<char>, Gap> {
    match printed(run) {
        Ok(output) => cpu_usage_in(output),
        Err(gap) => Err(gap),
    }
}

/// What a run of `free` tells of the memory.
pub open spec fn memory_reading(run: Result<CommandOutput, SpawnError>) -> Result<
    MemoryUsage,
    Gap,
> {
    match printed(run) {
        Ok(output) => memory_usage_in(output),
        Err(gap) => Err(gap),
    }
}

/// What a run of `nvidia-smi` tells of the graphics card.
pub open spec fn gpu_reading(run: Result<CommandOutput, SpawnError>) -> Result<GpuReading, Gap> {
    match printed(run) {
        Ok(output) => gpu_usage_in(output),
        Err(gap) => Err(gap),
    }
}

impl Gap {
    /// The reason in words.
    pub fn reason(&self) -> (r: String)
        ensures
            r@ == gap_reason(*self),
    {
        match self {
            Gap::NotRun => String::from_str("the tool could not be started"),
            Gap::NotText => String::from_str("the output is not valid UTF-8"),
            Gap::MissingLine => String::from_str("the output has too few lines"),
            Gap::MissingColumn => String::from_str("the line has too few columns"),
            Gap::NotANumber => String::from_str("a column does not hold a number"),
        }
    }
}

/// Reads the load of the processor from what `top -bn1` printed.
pub fn parse_cpu_usage(output: &str) -> (r: Result<CpuUsage, Gap>)
    ensures
        cpu_usage_in(output@) matches Ok(usage) ==> r is Ok && r->Ok_0@ == usage,
        cpu_usage_in(output@) matches Err(gap) ==> r == Err::<CpuUsage, Gap>(gap),
{
    let text = to_chars(output);
    let all = line_spans(&text);
    if all.len() <= CPU_LINE {
        return Err(Gap::MissingLine);
    }
    let line = all[CPU_LINE];
    let columns = column_spans(&text, line);
    if columns.len() <= CPU_COLUMN {
        return Err(Gap::MissingColumn);
    }
    let column = columns[CPU_COLUMN];
    if !span_is_decimal_fraction(&text, column) {
        return Err(Gap::NotANumber);
    }
    Ok(CpuUsage { usage: span_to_string(output, column) })
}

/// Reads the use of memory from what `free -m` printed.
pub fn parse_memory_usage(output: &str) -> (r: Result<MemoryUsage, Gap>)
    ensures
        r == memory_usage_in(output@),
{
    let text = to_chars(output);
    let all = line_spans(&text);
    if all.len() < 2 {
        return Err(Gap::MissingLine);
    }
    let line = all[1];
    let columns = column_spans(&text, line);
    if columns.len() < 4 {
        return Err(Gap::MissingColumn);
    }
    let total = span_parse_i64(&text, columns[1]);
    let used = span_parse_i64(&text, columns[2]);
    match (total, used) {
        (Some(total), Some(used)) => Ok(MemoryUsage { total, used }),
        _ => Err(Gap::NotANumber),
    }
}

/// Reads the load of the graphics card from what `nvidia-smi` printed when
/// asked for utilization, memory used and memory total as bare numbers.
pub fn parse_gpu_usage(output: &str) -> (r: Result<GpuUsage, Gap>)
    ensures
        gpu_usage_in(output@) matches Ok(reading) ==> r is Ok && r->Ok_0@ == reading,
        gpu_usage_in(output@) matches Err(gap) ==> r == Err::<GpuUsage, Gap>(gap),
{
    let text = to_chars(output);
    let all = line_spans(&text);
    if all.len() < 1 {
        return Err(Gap::MissingLine);
    }
    let line = all[0];
    let delimiter = to_chars(", ");
    proof {
        reveal_strlit(", ");
        assert(delimiter@ =~= seq![',', ' ']);
    }
    let fields = field_spans(&text, line, &delimiter);
    if fields.len() < 3 {
        return Err(Gap::MissingColumn);
    }
    let utilization = trim_span(&text, fields[0]);
    if !span_is_decimal_fraction(&text, utilization) {
        return Err(Gap::NotANumber);
    }
    let used = span_parse_i64(&text, trim_span(&text, fields[1]));
    let total = span_parse_i64(&text, trim_span(&text, fields[2]));
    match (used, total) {
        (Some(memory_used), Some(memory_total)) => Ok(
            GpuUsage {
                utilization: span_to_string(output, utilization),
                memory_used,
                memory_total,
            },
        ),
        _ => Err(Gap::NotANumber),
    }
}

/// What the tool of `run` printed, as text.
pub fn stdout_text(run: &Result<CommandOutput, SpawnError>) -> (r: Result<&str, Gap>)
    ensures
        printed(*run) matches Ok(text) ==> r is Ok && r->Ok_0@ == text,
        printed(*run) matches Err(gap) ==> r == Err::<&str, Gap>(gap),
{
    match run {
        Ok(output) => match decode_text(output.stdout.as_slice()) {
            Some(text) => Ok(text),
            None => Err(Gap::NotText),
        },
        Err(_) => Err(Gap::NotRun),
    }
}

/// The command that prints the load of the processor: `top -bn1`.
pub fn cpu_probe() -> (probe: Invocation)
    ensures
        probe.program@ == "top"@,
        probe.argument_texts() == seq!["-bn1"@],
{
    let mut arguments: Vec<String> = Vec::new();
    arguments.push(String::from_str("-bn1"));
    Invocation { program: String::from_str("top"), arguments }
}

/// The command that prints the use of memory in megabytes: `free -m`.
pub fn memory_probe() -> (probe: Invocation)
    ensures
        probe.program@ == "free"@,
        probe.argument_texts() == seq!["-m"@],
{
    let mut arguments: Vec<String> = Vec::new();
    arguments.push(String::from_str("-m"));
    Invocation { program: String::from_str("free"), arguments }
}

/// The command that prints the load of the graphics card as three bare
/// numbers with commas between them.
pub fn gpu_probe() -> (probe: Invocation)
    ensures
        probe.program@ == "nvidia-smi"@,
        probe.argument_texts() == seq![
            "--query-gpu=utilization.gpu,memory.used,memory.total"@,
            "--format=csv,noheader,nounits"@,
        ],
{
    let mut arguments: Vec<String> = Vec::new();
    arguments.push(String::from_str("--query-gpu=utilization.gpu,memory.used,memory.total"));
    arguments.push(String::from_str("--format=csv,noheader,nounits"));
    Invocation { program: String::from_str("nvidia-smi"), arguments }
}

/// Gathers the readings from the runs of the three probes. Never fails: a
/// probe that could not be started, or that printed no UTF-8 or something
/// else than expected, leaves its reading absent and the others as they are.
pub fn get_system_metrics(
    top: &Result<CommandOutput, SpawnError>,
    free: &Result<CommandOutput, SpawnError>,
    nvidia_smi: &Result<CommandOutput, SpawnError>,
) -> (metrics: SystemMetrics)
    ensures
        cpu_reading(*top) matches Ok(usage) ==> metrics.cpu is Ok && metrics.cpu->Ok_0@ == usage,
        cpu_reading(*top) matches Err(gap) ==> metrics.cpu == Err::<CpuUsage, Gap>(gap),
        metrics.memory == memory_reading(*free),
        gpu_reading(*nvidia_smi) matches Ok(reading) ==> metrics.gpu is Ok && metrics.gpu->Ok_0@
            == reading,
        gpu_reading(*nvidia_smi) matches Err(gap) ==> metrics.gpu == Err::<GpuUsage, Gap>(gap),
{
    let cpu = match stdout_text(top) {
        Ok(output) => parse_cpu_usage(output),
        Err(gap) => Err(gap),
    };
    let memory = match stdout_text(free) {
        Ok(output) => parse_memory_usage(output),
        Err(gap) => Err(gap),
    };
    let gpu = match stdout_text(nvidia_smi) {
        Ok(output) => parse_gpu_usage(output),
        Err(gap) => Err(gap),
    };
    SystemMetrics { cpu, memory, gpu }
}

} // verus!
