use vstd::prelude::*;
use vstd::string::StringExecFns;

verus! {

/// The broadphase strategy that a run uses.
#[derive(Debug, Clone, Copy, PartialEq, Eq, Structural)]
pub enum DetectionType {
    CellList,
    Tccd,
    SweptAabb,
}

/// Which traces a run records.
#[derive(Debug, Clone, Copy, PartialEq, Eq, Structural)]
pub enum RecorderType {
    Snapshots,
    Events,
    Checks,
    All,
}

/// Traces are flushed on every frame that is a multiple of this.
pub const FLUSH_EVERY: u64 = 60;

impl DetectionType {
    pub open spec fn tag_spec(self) -> Seq<char> {
        match self {
            DetectionType::CellList => "cell_list"@,
            DetectionType::Tccd => "tccd"@,
            DetectionType::SweptAabb => "swept_aabb"@,
        }
    }

    /// The tag that names the strategy in trace file names.
    pub fn tag(&self) -> (r: &'static str)
        ensures
            r@ == self.tag_spec(),
    {
        match self {
            DetectionType::CellList => "cell_list",
            DetectionType::Tccd => "tccd",
            DetectionType::SweptAabb => "swept_aabb",
        }
    }

    /// The file that records `prefix` traces of a run of `count` particles with this strategy:
    /// `<prefix>_<tag>_<count>.csv`.
    pub fn trace_file_name(&self, prefix: &str, count: u64) -> (r: String)
        ensures
            r@ == prefix@ + "_"@ + self.tag_spec() + "_"@ + decimal(count) + ".csv"@,
    {
        let mut s = String::from_str(prefix);
        s.append("_");
        s.append(self.tag());
        s.append("_");
        push_decimal(&mut s, count);
        s.append(".csv");
        s
    }
}

impl RecorderType {
    pub fn records_snapshots(&self) -> (r: bool)
        ensures
            r == (*self == RecorderType::Snapshots || *self == RecorderType::All),
    {
        match self {
            RecorderType::Snapshots | RecorderType::All => true,
            _ => false,
        }
    }

    pub fn records_events(&self) -> (r: bool)
        ensures
            r == (*self == RecorderType::Events || *self == RecorderType::All),
    {
        match self {
            RecorderType::Events | RecorderType::All => true,
            _ => false,
        }
    }

    pub fn records_checks(&self) -> (r: bool)
        ensures
            r == (*self == RecorderType::Checks || *self == RecorderType::All),
    {
        match self {
            RecorderType::Checks | RecorderType::All => true,
            _ => false,
        }
    }
}

/// Whether the traces are flushed after `frame`.
pub fn flush_due(frame: u64) -> (r: bool)
    ensures
        r == (frame % FLUSH_EVERY == 0),
{
    frame % FLUSH_EVERY == 0
}

pub open spec fn digit_char(d: nat) -> char {
    if d == 0 { '0' }
    else if d == 1 { '1' }
    else if d == 2 { '2' }
    else if d == 3 { '3' }
    else if d == 4 { '4' }
    else if d == 5 { '5' }
    else if d == 6 { '6' }
    else if d == 7 { '7' }
    else if d == 8 { '8' }
    else { '9' }
}

/// The decimal digits of `n`, most significant first, without leading zeros.
pub open spec fn decimal(n: u64) -> Seq<char>
    decreases n,
{
    if n < 10 {
        seq![digit_char(n as nat)]
    } else {
        decimal(n / 10) + seq![digit_char((n % 10) as nat)]
    }
}

fn digit_str(d: u64) -> (r: &'static str)
    requires
        d < 10,
    ensures
        r@ == seq![digit_char(d as nat)],
{
    proof {
        reveal_strlit("0");
        reveal_strlit("1");
        reveal_strlit("2");
        reveal_strlit("3");
        reveal_strlit("4");
        reveal_strlit("5");
        reveal_strlit("6");
        reveal_strlit("7");
        reveal_strlit("8");
        reveal_strlit("9");
    }
    if d == 0 { "0" }
    else if d == 1 { "1" }
    else if d == 2 { "2" }
    else if d == 3 { "3" }
    else if d == 4 { "4" }
    else if d == 5 { "5" }
    else if d == 6 { "6" }
    else if d == 7 { "7" }
    else if d == 8 { "8" }
    else { "9" }
}

fn push_decimal(s: &mut String, n: u64)
    ensures
        final(s)@ == old(s)@ + decimal(n),
    decreases n,
{
    let ghost before = s@;
    if n >= 10 {
        push_decimal(s, n / 10);
    }
    s.append(digit_str(n % 10));
    proof {
        if n >= 10 {
            assert(s@ =~= before + decimal(n));
        } else {
            assert(n % 10 == n);
        }
    }
}

} // verus!
