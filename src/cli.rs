use vstd::prelude::*;
use vstd::string::*;
use crate::types::{SortBy, UsageThresholds};

verus! {

/// What `str::to_lowercase` makes of a text.
pub uninterp spec fn lower_of(s: Seq<char>) -> Seq<char>;

/// Relies on `str::to_lowercase`: its result depends on the characters alone.
#[verifier::external_body]
fn lowercase(s: &str) -> (r: String)
    ensures
        r@ == lower_of(s@),
{
    s.to_lowercase()
}

/// The ordering that a (lower-case) option value names.
pub open spec fn sort_key(s: Seq<char>) -> Option<SortBy> {
    if s == "usage"@ || s == "u"@ {
        Some(SortBy::Usage)
    } else if s == "size"@ || s == "s"@ {
        Some(SortBy::Size)
    } else if s == "mount"@ || s == "m"@ || s == "mountpoint"@ {
        Some(SortBy::MountPoint)
    } else {
        None
    }
}

/// The complaint about an option value that names no ordering.
pub open spec fn invalid_sort_message(s: Seq<char>) -> Seq<char> {
    "Invalid sort option: '"@ + s + "'. Use 'usage', 'size', or 'mount'"@
}

/// Character-wise equality of two texts.
fn same_text(a: &str, b: &str) -> (r: bool)
    ensures
        r == (a@ == b@),
{
    let n = a.unicode_len();
    if n != b.unicode_len() {
        return false;
    }
    let mut i: usize = 0;
    while i < n
        invariant
            n == a@.len(),
            n == b@.len(),
            i <= n,
            a@.take(i as int) == b@.take(i as int),
        decreases n - i,
    {
        if a.get_char(i) != b.get_char(i) {
            return false;
        }
        assert(a@.take(i + 1) =~= a@.take(i as int).push(a@[i as int]));
        assert(b@.take(i + 1) =~= b@.take(i as int).push(b@[i as int]));
        i = i + 1;
    }
    assert(a@.take(n as int) =~= a@);
    assert(b@.take(n as int) =~= b@);
    true
}

/// The ordering named by an already lower-cased option value.
pub fn sort_by_name(name: &str) -> (r: Option<SortBy>)
    ensures
        r == sort_key(name@),
{
    if same_text(name, "usage") || same_text(name, "u") {
        Some(SortBy::Usage)
    } else if same_text(name, "size") || same_text(name, "s") {
        Some(SortBy::Size)
    } else if same_text(name, "mount") || same_text(name, "m") || same_text(name, "mountpoint") {
        Some(SortBy::MountPoint)
    } else {
        None
    }
}

/// The command-line settings. Thresholds are in hundredths of a percent.
pub struct Cli {
    pub sort: String,
    pub min_size: u64,
    pub all: bool,
    pub no_color: bool,
    pub no_bars: bool,
    pub yellow_threshold: u64,
    pub red_threshold: u64,
}

impl Cli {
    /// The ordering that the `sort` option names, in any letter case.
    pub fn parse_sort_by(&self) -> (r: Result<SortBy, String>)
        ensures
            match r {
                Ok(k) => sort_key(lower_of(self.sort@)) == Some(k),
                Err(e) => sort_key(lower_of(self.sort@)) is None && e@ == invalid_sort_message(
                    self.sort@,
                ),
            },
    {
        let lower = lowercase(self.sort.as_str());
        match sort_by_name(lower.as_str()) {
            Some(k) => Ok(k),
            None => {
                let mut msg = String::from_str("Invalid sort option: '");
                msg.append(self.sort.as_str());
                msg.append("'. Use 'usage', 'size', or 'mount'");
                Err(msg)
            },
        }
    }

    pub fn get_thresholds(&self) -> (r: UsageThresholds)
        ensures
            r.yellow == self.yellow_threshold,
            r.red == self.red_threshold,
    {
        UsageThresholds { yellow: self.yellow_threshold, red: self.red_threshold }
    }
}

} // verus!
