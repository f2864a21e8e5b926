use crate::error::AppError;
use vstd::prelude::*;
use vstd::string::StringSliceAdditionalSpecFns;

verus! {

/// Session settings: the root to search, whether "all" mode is on, the
/// display height and the editor that opens the chosen file.
#[derive(Debug, Clone)]
pub struct Config {
    pub all: bool,
    pub multi: bool,
    pub height: Option<u16>,
    pub root: String,
    pub editor: String,
}

/// The value of a run of decimal digits (ASCII bytes), most significant first.
pub open spec fn digits_value(d: Seq<u8>) -> nat
    decreases d.len(),
{
    if d.len() == 0 {
        0
    } else {
        digits_value(d.drop_last()) * 10 + (d.last() - 48) as nat
    }
}

pub open spec fn all_digits(d: Seq<u8>) -> bool {
    forall|i: int| 0 <= i < d.len() ==> 48 <= #[trigger] d[i] <= 57
}

/// The text after an optional leading `+`.
pub open spec fn unsigned_part(b: Seq<u8>) -> Seq<u8> {
    if b.len() > 0 && b[0] == 43 {
        b.subrange(1, b.len() as int)
    } else {
        b
    }
}

/// A decimal `u16` as standard integer parsing reads it: an optional `+`,
/// then at least one digit and nothing else, with a value that fits.
pub open spec fn decimal_u16(b: Seq<u8>) -> Option<u16> {
    let d = unsigned_part(b);
    if d.len() > 0 && all_digits(d) && digits_value(d) <= 65535 {
        Some(digits_value(d) as u16)
    } else {
        None
    }
}

/// Reads a decimal `u16` from ASCII text.
pub fn parse_u16(b: &[u8]) -> (r: Option<u16>)
    ensures
        r == decimal_u16(b@),
{
    assert(b@.subrange(0, b@.len() as int) =~= b@);
    parse_u16_prefix(b, b.len())
}

/// Reads a decimal `u16` from the first `n` bytes of `b`.
fn parse_u16_prefix(b: &[u8], n: usize) -> (r: Option<u16>)
    requires
        n <= b@.len(),
    ensures
        r == decimal_u16(b@.subrange(0, n as int)),
{
    let ghost t = b@.subrange(0, n as int);
    let start: usize = if n > 0 && b[0] == 43 { 1 } else { 0 };
    assert(t.subrange(start as int, n as int) =~= unsigned_part(t));
    if start == n {
        return None;
    }
    let mut v: u32 = 0;
    let mut i: usize = start;
    while i < n
        invariant
            n <= b@.len(),
            t == b@.subrange(0, n as int),
            t.subrange(start as int, n as int) == unsigned_part(t),
            start <= i <= n,
            all_digits(t.subrange(start as int, i as int)),
            v as nat == if digits_value(t.subrange(start as int, i as int)) < 65536 {
                digits_value(t.subrange(start as int, i as int))
            } else {
                65536
            },
        decreases n - i,
    {
        let c = b[i];
        if c < 48 || c > 57 {
            assert(t[i as int] == c);
            assert(unsigned_part(t)[i - start] == c);
            return None;
        }
        let ghost prev = t.subrange(start as int, i as int);
        let ghost next = t.subrange(start as int, i + 1);
        assert(next.drop_last() =~= prev);
        let w: u32 = v * 10 + (c - 48) as u32;
        v = if w > 65536 { 65536 } else { w };
        i = i + 1;
        assert(all_digits(next)) by {
            assert forall|j: int| 0 <= j < next.len() implies 48 <= #[trigger] next[j] <= 57 by {
                if j < prev.len() {
                    assert(next[j] == prev[j]);
                }
            }
        }
    }
    if v > 65535 {
        None
    } else {
        Some(v as u16)
    }
}

/// A requested display height: a number of rows, or a percentage of the
/// terminal's rows.
#[derive(Debug, Clone, Copy, PartialEq, Eq, Structural)]
pub enum HeightSpec {
    Rows(u16),
    Percent(u16),
}

/// Why a height argument was refused; each carries the argument as given.
#[derive(Debug, Clone, PartialEq, Eq)]
pub enum HeightError {
    /// The text before `%` is not a number.
    InvalidPercentage(String),
    /// A percentage above 100.
    PercentTooLarge(String),
    /// The argument is neither a number nor a percentage.
    InvalidHeight(String),
    /// The percentage leaves no row at all.
    ZeroHeight,
}

/// What `parse_height` makes of the bytes of its argument.
pub open spec fn height_of(b: Seq<u8>) -> Option<HeightSpec> {
    if b.len() > 0 && b.last() == 37 {
        match decimal_u16(b.drop_last()) {
            Some(p) => if p <= 100 {
                Some(HeightSpec::Percent(p))
            } else {
                None
            },
            None => None,
        }
    } else {
        match decimal_u16(b) {
            Some(h) => Some(HeightSpec::Rows(h)),
            None => None,
        }
    }
}

/// Reads a height argument: `N` rows, or `N%` of the terminal (at most 100).
pub fn parse_height(s: &str) -> (r: Result<HeightSpec, HeightError>)
    ensures
        r matches Ok(h) ==> height_of(s.spec_bytes()) == Some(h),
        r is Err <==> height_of(s.spec_bytes()) is None,
        r matches Err(e) ==> match e {
            HeightError::InvalidPercentage(t) => t@ == s@ && s.spec_bytes().len() > 0
                && s.spec_bytes().last() == 37 && decimal_u16(s.spec_bytes().drop_last()) is None,
            HeightError::PercentTooLarge(t) => t@ == s@ && s.spec_bytes().len() > 0
                && s.spec_bytes().last() == 37 && decimal_u16(s.spec_bytes().drop_last()) is Some,
            HeightError::InvalidHeight(t) => t@ == s@ && !(s.spec_bytes().len() > 0
                && s.spec_bytes().last() == 37),
            HeightError::ZeroHeight => false,
        },
{
    let b = s.as_bytes();
    let n = b.len();
    if n > 0 && b[n - 1] == 37 {
        assert(b@.subrange(0, n - 1) =~= b@.drop_last());
        match parse_u16_prefix(b, n - 1) {
            Some(p) => if p <= 100 {
                Ok(HeightSpec::Percent(p))
            } else {
                Err(HeightError::PercentTooLarge(s.to_owned()))
            },
            None => Err(HeightError::InvalidPercentage(s.to_owned())),
        }
    } else {
        match parse_u16(b) {
            Some(h) => Ok(HeightSpec::Rows(h)),
            None => Err(HeightError::InvalidHeight(s.to_owned())),
        }
    }
}

/// The rows that `percent` percent of `terminal_rows` come to, rounded down.
pub open spec fn percent_rows(terminal_rows: u16, percent: u16) -> int {
    (terminal_rows as int * percent as int) / 100
}

impl HeightSpec {
    /// The height in rows, given the terminal's rows; a percentage that comes
    /// to no row at all is refused.
    pub fn rows(&self, terminal_rows: u16) -> (r: Result<u16, HeightError>)
        requires
            self matches HeightSpec::Percent(p) ==> p <= 100,
        ensures
            match *self {
                HeightSpec::Rows(h) => r == Ok::<u16, HeightError>(h),
                HeightSpec::Percent(p) => if percent_rows(terminal_rows, p) == 0 {
                    r matches Err(HeightError::ZeroHeight)
                } else {
                    r matches Ok(h) && h as int == percent_rows(terminal_rows, p)
                },
            },
    {
        match *self {
            HeightSpec::Rows(h) => Ok(h),
            HeightSpec::Percent(p) => {
                let t = terminal_rows as u32;
                let q = p as u32;
                assert(t * q <= 65535 * 100) by (nonlinear_arith)
                    requires
                        t <= 65535,
                        q <= 100,
                ;
                assert(t * q / 100 <= t) by (nonlinear_arith)
                    requires
                        q <= 100,
                ;
                let h = t * q / 100;
                if h == 0 {
                    Err(HeightError::ZeroHeight)
                } else {
                    Ok(h as u16)
                }
            },
        }
    }
}

/// The editor to launch: the value of the editor variable where it is set,
/// else `nano`.
pub open spec fn editor_choice(var: Option<Seq<char>>) -> Seq<char> {
    match var {
        Some(v) => v,
        None => "nano"@,
    }
}

impl Config {
    /// Completes settings read from the command line with the environment: an
    /// empty root becomes the current directory, and the editor comes from the
    /// editor variable (`nano` where it is unset or unreadable).
    pub fn with_environment(self, current_dir: Option<String>, editor_var: Option<String>) -> (r:
        Result<Config, AppError>)
        ensures
            (self.root@.len() == 0 && current_dir is None) <==> r is Err,
            r matches Err(e) ==> e is Io,
            r matches Ok(c) ==> {
                &&& c.all == self.all
                &&& c.multi == self.multi
                &&& c.height == self.height
                &&& c.root@ == if self.root@.len() == 0 {
                    current_dir->Some_0@
                } else {
                    self.root@
                }
                &&& c.editor@ == editor_choice(
                    match editor_var {
                        Some(v) => Some(v@),
                        None => None,
                    },
                )
            },
    {
        let mut cfg = self;
        if cfg.root.as_str().is_empty() {
            match current_dir {
                Some(d) => cfg.root = d,
                None => return Err(AppError::Io("current directory unavailable".to_owned())),
            }
        }
        cfg.editor = match editor_var {
            Some(v) => v,
            None => {
                proof {
                    reveal_strlit("nano");
                }
                "nano".to_owned()
            },
        };
        Ok(cfg)
    }
}

} // verus!
