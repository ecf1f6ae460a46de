//! Utility data structure to display one of several strings based on a
//! value in a range, like a volume icon.

use vstd::prelude::*;

verus! {

/// An ordered sequence of icon strings selected by a value in a range.
#[derive(Clone, Debug)]
pub struct Ramp {
    /// The icons, from the low end of the range to the high end.
    pub icons: Vec<String>,
}

/// The icon index selected for `v` in `[min, max]` over `n` icons: `v` is
/// clamped into the range, mapped proportionally onto `0..n`, and the
/// result clamped to `n - 1`.  A degenerate range selects the first icon.
pub open spec fn ramp_index(v: int, min: int, max: int, n: int) -> int {
    let vc = if v < min {
        min
    } else if v > max {
        max
    } else {
        v
    };
    if max <= min {
        0
    } else {
        let i = (vc - min) * n / (max - min);
        if i > n - 1 {
            n - 1
        } else {
            i
        }
    }
}

/// The first value paired with `key`, scanning from index `i`.
pub open spec fn keyed_lookup_from(entries: Seq<(u64, String)>, key: u64, i: int) -> Option<String>
    decreases entries.len() - i,
{
    if i < 0 || i >= entries.len() {
        None
    } else if entries[i].0 == key {
        Some(entries[i].1)
    } else {
        keyed_lookup_from(entries, key, i + 1)
    }
}

/// The first value paired with `key` in an association list.
pub open spec fn keyed_lookup(entries: Seq<(u64, String)>, key: u64) -> Option<String> {
    keyed_lookup_from(entries, key, 0)
}

/// The first table paired with `name`, scanning from index `i`.
pub open spec fn named_lookup_from(
    tables: Seq<(String, Vec<(u64, String)>)>,
    name: Seq<char>,
    i: int,
) -> Option<Vec<(u64, String)>>
    decreases tables.len() - i,
{
    if i < 0 || i >= tables.len() {
        None
    } else if tables[i].0@ == name {
        Some(tables[i].1)
    } else {
        named_lookup_from(tables, name, i + 1)
    }
}

/// The first table paired with `name` in an association list.
pub open spec fn named_lookup(
    tables: Seq<(String, Vec<(u64, String)>)>,
    name: Seq<char>,
) -> Option<Vec<(u64, String)>> {
    named_lookup_from(tables, name, 0)
}

impl Ramp {
    /// Creates an empty instance (no icons).
    ///
    /// When [`Ramp::choose_icon`] is called on an empty ramp, it always returns
    /// an empty string.
    pub fn empty() -> (r: Self)
        ensures
            r.icons@.len() == 0,
    {
        Ramp { icons: Vec::new() }
    }

    /// Given a value and a range, chooses the appropriate icon.
    ///
    /// The value is clamped into the range; every call on a non-empty ramp
    /// returns one of its icons.
    pub fn choose_icon(&self, value: i32, min: i32, max: i32) -> (r: String)
        requires
            min <= max,
        ensures
            self.icons@.len() == 0 ==> r@ == Seq::<char>::empty(),
            self.icons@.len() > 0 ==> {
                let i = ramp_index(value as int, min as int, max as int, self.icons@.len() as int);
                &&& 0 <= i < self.icons@.len()
                &&& r == self.icons@[i]
            },
    {
        let n = self.icons.len();
        if n == 0 {
            return String::new();
        }
        let vc = if value < min {
            min
        } else if value > max {
            max
        } else {
            value
        };
        if min == max {
            return self.icons[0].clone();
        }
        let diff = (vc as i64 - min as i64) as u128;
        proof {
            assert(diff * (n as u128) <= 0x2_0000_0000 * 0xffff_ffff_ffff_ffffu128)
                by (nonlinear_arith)
                requires
                    0 <= diff <= 0x2_0000_0000,
                    n as u128 <= 0xffff_ffff_ffff_ffffu128,
            ;
        }
        let num = diff * (n as u128);
        let den = (max as i64 - min as i64) as u128;
        let q = num / den;
        let last = (n - 1) as u128;
        let idx = if q > last {
            n - 1
        } else {
            q as usize
        };
        proof {
            let vi = value as int;
            let mini = min as int;
            let maxi = max as int;
            let ni = n as int;
            let vci = if vi < mini {
                mini
            } else if vi > maxi {
                maxi
            } else {
                vi
            };
            assert(vc as int == vci);
            assert(num as int == (vci - mini) * ni) by (nonlinear_arith)
                requires
                    num == ((vc as i64 - min as i64) as u128) * (n as u128),
                    vc as int == vci,
                    mini <= vci,
                    vc as i64 - min as i64 == vci - mini,
                    n as u128 == ni,
                    ni >= 0,
            ;
            assert(q as int == (vci - mini) * ni / (maxi - mini));
            assert(0 <= ramp_index(vi, mini, maxi, ni) < ni) by {
                let i = (vci - mini) * ni / (maxi - mini);
                assert((vci - mini) * ni >= 0) by (nonlinear_arith)
                    requires
                        vci >= mini,
                        ni >= 0,
                ;
                assert(i >= 0);
            }
        }
        self.icons[idx].clone()
    }

    /// Parses a ramp named `name` from an association list of ramp tables.
    ///
    /// Each table pairs integer keys with icon strings; icons are collected
    /// for consecutive keys starting at zero, and the first gap terminates
    /// parsing.  (A scan is never longer than the table itself, so lookups
    /// stop at the table's length.)  Returns `None` when no table bears the
    /// name.
    pub fn parse(name: &str, ramps: &Vec<(String, Vec<(u64, String)>)>) -> (r: Option<Self>)
        ensures
            r is Some <==> named_lookup(ramps@, name@) is Some,
            r is Some ==> {
                let table = named_lookup(ramps@, name@)->Some_0;
                let icons = r->Some_0.icons;
                &&& icons@.len() <= table@.len()
                &&& forall|j: int|
                    0 <= j < icons@.len() ==> keyed_lookup(table@, j as u64) == Some(icons@[j])
                &&& (icons@.len() == table@.len() || keyed_lookup(
                    table@,
                    icons@.len() as u64,
                ) is None)
            },
    {
        let table: &Vec<(u64, String)> = match find_named(ramps, name) {
            Some(ti) => &ramps[ti].1,
            None => {
                return None;
            },
        };
        let mut icons: Vec<String> = Vec::new();
        let mut k: usize = 0;
        while k < table.len()
            invariant
                named_lookup(ramps@, name@) == Some(*table),
                0 <= k <= table@.len(),
                icons@.len() == k,
                forall|j: int|
                    0 <= j < k ==> keyed_lookup(table@, j as u64) == Some(icons@[j]),
            decreases table@.len() - k,
        {
            match lookup_key(table, k as u64) {
                Some(icon) => {
                    icons.push(icon);
                    k += 1;
                },
                None => {
                    return Some(Ramp { icons });
                },
            }
        }
        Some(Ramp { icons })
    }
}

/// Finds the index of the first table paired with `name`.
fn find_named(tables: &Vec<(String, Vec<(u64, String)>)>, name: &str) -> (r: Option<usize>)
    ensures
        match r {
            Some(ti) => ti < tables@.len() && named_lookup(tables@, name@) == Some(
                tables@[ti as int].1,
            ),
            None => named_lookup(tables@, name@) is None,
        },
{
    let mut ti: usize = 0;
    while ti < tables.len()
        invariant
            0 <= ti <= tables@.len(),
            named_lookup(tables@, name@) == named_lookup_from(tables@, name@, ti as int),
        decreases tables@.len() - ti,
    {
        if crate::text::str_eq(name, tables[ti].0.as_str()) {
            return Some(ti);
        }
        ti += 1;
    }
    None
}

/// Finds the first value paired with `key` in the table.
fn lookup_key(table: &Vec<(u64, String)>, key: u64) -> (r: Option<String>)
    ensures
        r == keyed_lookup(table@, key),
{
    let mut i: usize = 0;
    while i < table.len()
        invariant
            0 <= i <= table@.len(),
            keyed_lookup(table@, key) == keyed_lookup_from(table@, key, i as int),
        decreases table@.len() - i,
    {
        if table[i].0 == key {
            return Some(table[i].1.clone());
        }
        i += 1;
    }
    None
}

} // verus!
