use vstd::prelude::*;
use crate::text::str_equal;

verus! {

/// Unicode lower-case mapping of a string, as `str::to_lowercase` computes it.
pub uninterp spec fn spec_to_lowercase(s: Seq<char>) -> Seq<char>;

/// `str::to_lowercase`: the lower-case form of `s`. Its result is named by
/// `spec_to_lowercase` and depends on `s` alone; the Unicode case tables it
/// applies are not restated here.
#[verifier::external_body]
fn to_lowercase(s: &str) -> (r: String)
    ensures
        r@ == spec_to_lowercase(s@),
{
    s.to_lowercase()
}

/// The characters of each port name; a port whose name could not be read is `None`.
pub open spec fn name_views(names: Seq<Option<String>>) -> Seq<Option<Seq<char>>> {
    names.map_values(|o: Option<String>| match o {
        Some(s) => Some(s@),
        None => None,
    })
}

/// The port names in lower case.
pub open spec fn lowered_views(names: Seq<Option<Seq<char>>>) -> Seq<Option<Seq<char>>> {
    names.map_values(|o: Option<Seq<char>>| match o {
        Some(s) => Some(spec_to_lowercase(s)),
        None => None,
    })
}

/// `p` occurs in `s` at position `k`.
pub open spec fn occurs_at(s: Seq<char>, p: Seq<char>, k: int) -> bool {
    0 <= k && k + p.len() <= s.len() && s.subrange(k, k + p.len()) == p
}

/// `p` occurs somewhere in `s`.
pub open spec fn seq_contains(s: Seq<char>, p: Seq<char>) -> bool {
    exists|k: int| occurs_at(s, p, k)
}

pub open spec fn name_is(n: Option<Seq<char>>, f: Seq<char>) -> bool {
    match n {
        Some(s) => s == f,
        None => false,
    }
}

pub open spec fn name_contains(n: Option<Seq<char>>, p: Seq<char>) -> bool {
    match n {
        Some(s) => seq_contains(s, p),
        None => false,
    }
}

/// The first port from index `k` on whose name is `f`.
pub open spec fn first_named(names: Seq<Option<Seq<char>>>, f: Seq<char>, k: int) -> Option<int>
    decreases names.len() - k,
{
    if k >= names.len() || k < 0 {
        None
    } else if name_is(names[k], f) {
        Some(k)
    } else {
        first_named(names, f, k + 1)
    }
}

/// The first port from index `k` on whose name contains `p`.
pub open spec fn first_containing(names: Seq<Option<Seq<char>>>, p: Seq<char>, k: int) -> Option<int>
    decreases names.len() - k,
{
    if k >= names.len() || k < 0 {
        None
    } else if name_contains(names[k], p) {
        Some(k)
    } else {
        first_containing(names, p, k + 1)
    }
}

/// Port choice for an input filter: the first port named exactly `f`, else
/// the first whose lower-case name contains the lower-case filter `lf`.
pub open spec fn spec_pick_filtered(names: Seq<Option<Seq<char>>>, lowered: Seq<Option<Seq<char>>>, f: Seq<char>, lf: Seq<char>) -> Option<int> {
    match first_named(names, f, 0) {
        Some(i) => Some(i),
        None => first_containing(lowered, lf, 0),
    }
}

/// Port choice without a filter: the first port whose lower-case name
/// contains "launchpad", else the first port.
pub open spec fn spec_pick_default(lowered: Seq<Option<Seq<char>>>) -> Option<int> {
    match first_containing(lowered, "launchpad"@, 0) {
        Some(i) => Some(i),
        None => if lowered.len() > 0 { Some(0) } else { None },
    }
}

pub open spec fn as_int(o: Option<usize>) -> Option<int> {
    match o {
        Some(i) => Some(i as int),
        None => None,
    }
}

/// Whether `needle` occurs in `hay`.
pub fn str_contains(hay: &str, needle: &str) -> (b: bool)
    ensures
        b == seq_contains(hay@, needle@),
{
    let n = hay.unicode_len();
    let m = needle.unicode_len();
    if m == 0 {
        assert(hay@.subrange(0, 0) =~= needle@);
        assert(occurs_at(hay@, needle@, 0));
        return true;
    }
    if m > n {
        assert forall|k: int| !occurs_at(hay@, needle@, k) by {}
        return false;
    }
    let mut k: usize = 0;
    while k <= n - m
        invariant
            n == hay@.len(),
            m == needle@.len(),
            1 <= m <= n,
            k <= n - m + 1,
            forall|j: int| 0 <= j < k ==> !#[trigger] occurs_at(hay@, needle@, j),
        decreases n - m + 1 - k,
    {
        let sub = hay.substring_char(k, k + m);
        if str_equal(sub, needle) {
            assert(occurs_at(hay@, needle@, k as int));
            return true;
        }
        k = k + 1;
    }
    assert forall|j: int| !#[trigger] occurs_at(hay@, needle@, j) by {
        if 0 <= j < k {
        }
    }
    false
}

/// Index of the first port named exactly `f`.
pub fn find_named(names: &Vec<Option<String>>, f: &str) -> (r: Option<usize>)
    ensures
        as_int(r) == first_named(name_views(names@), f@, 0),
{
    let ghost v = name_views(names@);
    let mut i: usize = 0;
    while i < names.len()
        invariant
            i <= names@.len(),
            v == name_views(names@),
            first_named(v, f@, 0) == first_named(v, f@, i as int),
        decreases names@.len() - i,
    {
        let hit = match &names[i] {
            Some(s) => str_equal(s.as_str(), f),
            None => false,
        };
        if hit {
            return Some(i);
        }
        i = i + 1;
    }
    None
}

/// Index of the first port whose name contains `p`.
pub fn find_containing(names: &Vec<Option<String>>, p: &str) -> (r: Option<usize>)
    ensures
        as_int(r) == first_containing(name_views(names@), p@, 0),
{
    let ghost v = name_views(names@);
    let mut i: usize = 0;
    while i < names.len()
        invariant
            i <= names@.len(),
            v == name_views(names@),
            first_containing(v, p@, 0) == first_containing(v, p@, i as int),
        decreases names@.len() - i,
    {
        let hit = match &names[i] {
            Some(s) => str_contains(s.as_str(), p),
            None => false,
        };
        if hit {
            return Some(i);
        }
        i = i + 1;
    }
    None
}

/// The port names in lower case (a name that could not be read stays `None`).
pub fn lowercase_names(names: &Vec<Option<String>>) -> (r: Vec<Option<String>>)
    ensures
        name_views(r@) == lowered_views(name_views(names@)),
{
    let mut r: Vec<Option<String>> = Vec::new();
    let mut i: usize = 0;
    while i < names.len()
        invariant
            i <= names@.len(),
            r@.len() == i,
            name_views(r@) == lowered_views(name_views(names@)).take(i as int),
        decreases names@.len() - i,
    {
        let l = match &names[i] {
            Some(s) => Some(to_lowercase(s.as_str())),
            None => None,
        };
        let ghost prev = r@;
        r.push(l);
        proof {
            let want = lowered_views(name_views(names@));
            assert(r@ == prev.push(l));
            assert forall|j: int| 0 <= j <= i implies #[trigger] name_views(r@)[j] == want[j] by {
                if j < i {
                    assert(name_views(prev)[j] == want.take(i as int)[j]);
                    assert(r@[j] == prev[j]);
                } else {
                    assert(r@[j] == l);
                    assert(names@[j] == names@[i as int]);
                }
            }
        }
        i = i + 1;
        assert(name_views(r@) =~= lowered_views(name_views(names@)).take(i as int));
    }
    assert(lowered_views(name_views(names@)).take(i as int) =~= lowered_views(name_views(names@)));
    r
}

/// The input port for a filter, given the names and their lower-case forms.
pub fn pick_filtered_port(names: &Vec<Option<String>>, lowered: &Vec<Option<String>>, filter: &str, lowered_filter: &str) -> (r: Option<usize>)
    ensures
        as_int(r) == spec_pick_filtered(name_views(names@), name_views(lowered@), filter@, lowered_filter@),
{
    match find_named(names, filter) {
        Some(i) => Some(i),
        None => find_containing(lowered, lowered_filter),
    }
}

/// The input port without a filter, given the lower-case names.
pub fn pick_default_port(lowered: &Vec<Option<String>>) -> (r: Option<usize>)
    ensures
        as_int(r) == spec_pick_default(name_views(lowered@)),
{
    match find_containing(lowered, "launchpad") {
        Some(i) => Some(i),
        None => if lowered.len() > 0 { Some(0) } else { None },
    }
}

/// The MIDI input port to connect to. With a filter: the port named exactly
/// like it, else the first whose name contains it ignoring case. Without:
/// the first port whose name contains "launchpad" ignoring case, else the
/// first port. `None` when no port fits.
pub fn select_input_port(names: &Vec<Option<String>>, filter: Option<&str>) -> (r: Option<usize>)
    ensures
        as_int(r) == match filter {
            Some(f) => spec_pick_filtered(name_views(names@), lowered_views(name_views(names@)), f@, spec_to_lowercase(f@)),
            None => spec_pick_default(lowered_views(name_views(names@))),
        },
        r matches Some(i) ==> i < names@.len(),
{
    let lowered = lowercase_names(names);
    proof {
        assert(name_views(lowered@).len() == names@.len());
    }
    match filter {
        Some(f) => {
            let lf = to_lowercase(f);
            proof {
                lemma_first_named_bound(name_views(names@), f@, 0);
                lemma_first_containing_bound(name_views(lowered@), lf@, 0);
            }
            pick_filtered_port(names, &lowered, f, lf.as_str())
        },
        None => {
            proof {
                lemma_first_containing_bound(name_views(lowered@), "launchpad"@, 0);
            }
            pick_default_port(&lowered)
        },
    }
}

/// The MIDI output port named exactly `port_name`.
pub fn select_output_port(names: &Vec<Option<String>>, port_name: &str) -> (r: Option<usize>)
    ensures
        as_int(r) == first_named(name_views(names@), port_name@, 0),
        r matches Some(i) ==> i < names@.len(),
{
    let r = find_named(names, port_name);
    proof {
        lemma_first_named_bound(name_views(names@), port_name@, 0);
    }
    r
}

proof fn lemma_first_named_bound(names: Seq<Option<Seq<char>>>, f: Seq<char>, k: int)
    ensures
        first_named(names, f, k) matches Some(i) ==> k <= i < names.len() && name_is(names[i], f),
    decreases names.len() - k,
{
    if k < names.len() && k >= 0 {
        lemma_first_named_bound(names, f, k + 1);
    }
}

proof fn lemma_first_containing_bound(names: Seq<Option<Seq<char>>>, p: Seq<char>, k: int)
    ensures
        first_containing(names, p, k) matches Some(i) ==> k <= i < names.len() && name_contains(names[i], p),
    decreases names.len() - k,
{
    if k < names.len() && k >= 0 {
        lemma_first_containing_bound(names, p, k + 1);
    }
}

/// The chosen port is the first that fits: no earlier port has the exact
/// name, and with a filter an exact name match always wins over a
/// substring match.
pub proof fn lemma_first_named_is_first(names: Seq<Option<Seq<char>>>, f: Seq<char>, k: int)
    requires
        0 <= k,
    ensures
        first_named(names, f, k) matches Some(i) ==> forall|j: int| k <= j < i ==> !name_is(#[trigger] names[j], f),
        first_named(names, f, k) is None ==> forall|j: int| k <= j < names.len() ==> !name_is(#[trigger] names[j], f),
    decreases names.len() - k,
{
    if k < names.len() {
        lemma_first_named_is_first(names, f, k + 1);
    }
}

} // verus!
