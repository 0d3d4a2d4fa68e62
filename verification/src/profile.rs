//! Profiles: version-stamped pointers to a generation's storage.
//!
//! A profile is conventionally a symlink whose file name encodes the
//! version of the generation it points to: the version is the second
//! hyphen-delimited token of the path's final component. Profiles are
//! compared and ordered by that version alone — the path deliberately
//! plays no part, so two profiles that share a version are equal even
//! when they point at different locations.
//!
//! Paths are handled as plain text: the final component is what follows
//! the last `/` once trailing `/` characters are dropped.

use vstd::prelude::*;

use crate::decimal::is_numeral;
use crate::decimal::lemma_digits_are_numeral;
use crate::decimal::lemma_digits_val;
use crate::decimal::numeral_val;
use crate::decimal::parse_u64_decimal;
use crate::decimal::spec_digits;
use core::cmp::Ordering;
use vstd::std_specs::cmp::PartialEqSpec;
use vstd::std_specs::cmp::PartialOrdSpec;

verus! {

/// `s` with every trailing `/` removed.
pub open spec fn trim_trailing_slashes(s: Seq<char>) -> Seq<char>
    decreases s.len(),
{
    if s.len() > 0 && s.last() == '/' {
        trim_trailing_slashes(s.drop_last())
    } else {
        s
    }
}

/// The suffix of `s` that follows its last `/` (all of `s` when no `/`
/// occurs).
pub open spec fn after_last_slash(s: Seq<char>) -> Seq<char>
    decreases s.len(),
{
    if s.len() == 0 {
        s
    } else if s.last() == '/' {
        Seq::empty()
    } else {
        after_last_slash(s.drop_last()).push(s.last())
    }
}

/// The final component of a path: what follows the last `/` once
/// trailing `/` characters are dropped. `None` when nothing remains
/// (the empty path, or a path of separators only).
pub open spec fn spec_file_name(path: Seq<char>) -> Option<Seq<char>> {
    let trimmed = trim_trailing_slashes(path);
    if trimmed.len() == 0 {
        None
    } else {
        Some(after_last_slash(trimmed))
    }
}

/// The suffix of `s` that follows its first `-` (all of `s` when no `-`
/// occurs).
pub open spec fn after_first_dash(s: Seq<char>) -> Seq<char>
    decreases s.len(),
{
    if s.len() == 0 {
        s
    } else if s[0] == '-' {
        s.drop_first()
    } else {
        after_first_dash(s.drop_first())
    }
}

/// The prefix of `s` that precedes its first `-` (all of `s` when no
/// `-` occurs).
pub open spec fn before_first_dash(s: Seq<char>) -> Seq<char>
    decreases s.len(),
{
    if s.len() == 0 {
        s
    } else if s[0] == '-' {
        Seq::empty()
    } else {
        seq![s[0]] + before_first_dash(s.drop_first())
    }
}

/// The second hyphen-delimited token of `name`: what stands between the
/// first `-` and the second `-` (or the end). `None` when `name` has
/// fewer than two tokens, that is, no `-` at all.
pub open spec fn spec_second_token(name: Seq<char>) -> Option<Seq<char>> {
    if name.contains('-') {
        Some(before_first_dash(after_first_dash(name)))
    } else {
        None
    }
}

/// The version encoded in a profile path: the second hyphen-delimited
/// token of the path's final component, read as a decimal numeral.
/// `None` when there is no final component, fewer than two tokens, a
/// non-numeric token, or a value over `u64::MAX`.
pub open spec fn spec_parse_version(path: Seq<char>) -> Option<int> {
    match spec_file_name(path) {
        Option::None => Option::None,
        Option::Some(name) => match spec_second_token(name) {
            Option::None => Option::None,
            Option::Some(tok) => if is_numeral(tok) && numeral_val(tok) <= u64::MAX {
                Option::Some(numeral_val(tok))
            } else {
                Option::None
            },
        },
    }
}

/// Characterises `trim_trailing_slashes` by an index: if everything
/// from `e` on is `/` and the character before `e` is not, trimming
/// keeps exactly the first `e` characters.
proof fn lemma_trim_range(s: Seq<char>, e: int)
    requires
        0 <= e <= s.len(),
        forall|i: int| e <= i < s.len() ==> s[i] == '/',
        e == 0 || s[e - 1] != '/',
    ensures
        trim_trailing_slashes(s) == s.subrange(0, e),
    decreases s.len(),
{
    if s.len() == e {
        assert(s.subrange(0, e) =~= s);
    } else {
        lemma_trim_range(s.drop_last(), e);
        assert(s.drop_last().subrange(0, e) =~= s.subrange(0, e));
    }
}

/// Characterises `after_last_slash` by an index: if no `/` occurs from
/// `k` on and the character before `k` is `/` (or `k` is the start),
/// the suffix after the last `/` is exactly `s[k..]`.
proof fn lemma_after_last_slash_range(s: Seq<char>, k: int)
    requires
        0 <= k <= s.len(),
        forall|i: int| k <= i < s.len() ==> s[i] != '/',
        k == 0 || s[k - 1] == '/',
    ensures
        after_last_slash(s) == s.subrange(k, s.len() as int),
    decreases s.len(),
{
    if s.len() == k {
        assert(after_last_slash(s) =~= s.subrange(k, s.len() as int));
    } else {
        lemma_after_last_slash_range(s.drop_last(), k);
        assert(s.subrange(k, s.len() as int) =~= s.drop_last().subrange(
            k,
            s.len() - 1,
        ).push(s.last()));
    }
}

/// Characterises `after_first_dash` by the index `i` of the first `-`.
proof fn lemma_after_first_dash_at(s: Seq<char>, i: int)
    requires
        0 <= i < s.len(),
        s[i] == '-',
        forall|k: int| 0 <= k < i ==> s[k] != '-',
    ensures
        after_first_dash(s) == s.subrange(i + 1, s.len() as int),
    decreases i,
{
    if i == 0 {
        assert(s.drop_first() =~= s.subrange(1, s.len() as int));
    } else {
        assert(forall|k: int| 0 <= k < i - 1 ==> s.drop_first()[k] != '-');
        lemma_after_first_dash_at(s.drop_first(), i - 1);
        assert(s.drop_first().subrange(i, s.len() - 1) =~= s.subrange(i + 1, s.len() as int));
    }
}

/// Characterises `before_first_dash` by the index `i` of the first `-`
/// (or `i == s.len()` when there is none).
proof fn lemma_before_first_dash_at(s: Seq<char>, i: int)
    requires
        0 <= i <= s.len(),
        i == s.len() || s[i] == '-',
        forall|k: int| 0 <= k < i ==> s[k] != '-',
    ensures
        before_first_dash(s) == s.subrange(0, i),
    decreases s.len(),
{
    if s.len() == 0 {
        assert(before_first_dash(s) =~= s.subrange(0, i));
    } else if s[0] == '-' {
        assert(before_first_dash(s) =~= s.subrange(0, 0));
    } else {
        assert(forall|k: int| 0 <= k < i - 1 ==> s.drop_first()[k] != '-');
        lemma_before_first_dash_at(s.drop_first(), i - 1);
        assert(seq![s[0]] + s.drop_first().subrange(0, i - 1) =~= s.subrange(0, i));
    }
}

/// Error: the path's name does not encode a parseable version —
/// missing final component, fewer than two hyphen tokens, or a second
/// token that is not a decimal number within 64-bit range.
#[derive(Debug)]
pub struct PathFormatError {
    /// The offending path, as given.
    pub path: String,
}

/// A profile is a pointer (conventionally a symlink) to a generation's
/// storage. It encodes the version of the generation it points to in
/// its file name.
#[derive(Debug)]
pub struct Profile {
    /// The version parsed from the path's final component.
    pub version: u64,
    /// The path, stored verbatim: no canonicalisation, existence check
    /// or symlink resolution is ever performed here.
    pub path: String,
}

/// Extract the version encoded in a profile path: the second
/// hyphen-delimited token of the path's final component, as a decimal
/// `u64`. Fails exactly when the path encodes no such version.
pub fn parse_version(path: &str) -> (r: Result<u64, PathFormatError>)
    ensures
        r is Ok <==> spec_parse_version(path@) is Some,
        r is Ok ==> r->Ok_0 as int == spec_parse_version(path@)->0,
        r is Err ==> r->Err_0.path@ == path@,
{
    let ghost p = path@;
    let n = path.unicode_len();

    // Drop trailing separators so the final component is in view.
    let mut end: usize = n;
    while end > 0 && path.get_char(end - 1) == '/'
        invariant
            0 <= end <= n,
            n == p.len(),
            p == path@,
            forall|i: int| end <= i < n ==> p[i] == '/',
        decreases end,
    {
        end = end - 1;
    }
    proof {
        lemma_trim_range(p, end as int);
    }
    if end == 0 {
        return Err(PathFormatError { path: String::from_str(path) });
    }

    // The final component starts after the last remaining separator.
    let mut start: usize = end;
    while start > 0 && path.get_char(start - 1) != '/'
        invariant
            0 <= start <= end <= n,
            n == p.len(),
            p == path@,
            forall|i: int| start <= i < end ==> p[i] != '/',
        decreases start,
    {
        start = start - 1;
    }
    assert(start < end) by {
        assert(p[end - 1] != '/');
    }
    let ghost name = p.subrange(start as int, end as int);
    proof {
        lemma_after_last_slash_range(p.subrange(0, end as int), start as int);
        assert(p.subrange(0, end as int).subrange(start as int, end as int) =~= name);
        assert(spec_file_name(p) == Option::Some(name));
    }

    // The version token stands between the first `-` of the name and
    // the second `-` (or the name's end).
    let mut i: usize = start;
    while i < end && path.get_char(i) != '-'
        invariant
            start <= i <= end <= n,
            n == p.len(),
            p == path@,
            forall|k: int| start <= k < i ==> p[k] != '-',
        decreases end - i,
    {
        i = i + 1;
    }
    if i == end {
        proof {
            assert(forall|k: int| 0 <= k < name.len() ==> name[k] != '-');
            assert(!name.contains('-'));
        }
        return Err(PathFormatError { path: String::from_str(path) });
    }
    let tok_start = i + 1;
    let mut j: usize = tok_start;
    while j < end && path.get_char(j) != '-'
        invariant
            tok_start <= j <= end <= n,
            n == p.len(),
            p == path@,
            forall|k: int| tok_start <= k < j ==> p[k] != '-',
        decreases end - j,
    {
        j = j + 1;
    }
    proof {
        assert(name[i - start] == '-');
        assert(name.contains('-'));
        lemma_after_first_dash_at(name, i - start);
        let rest = after_first_dash(name);
        assert(rest =~= p.subrange(tok_start as int, end as int));
        lemma_before_first_dash_at(rest, j - tok_start);
        assert(before_first_dash(rest) =~= p.subrange(tok_start as int, j as int));
    }
    let token = path.substring_char(tok_start, j);
    match parse_u64_decimal(token) {
        Some(version) => Ok(version),
        None => Err(PathFormatError { path: String::from_str(path) }),
    }
}

impl Profile {
    /// Construct a profile from a path. The version is parsed from the
    /// path's final component; the path itself is stored verbatim.
    pub fn from_path(path: &str) -> (r: Result<Profile, PathFormatError>)
        ensures
            r is Ok <==> spec_parse_version(path@) is Some,
            r is Ok ==> r->Ok_0.version as int == spec_parse_version(path@)->0,
            r is Ok ==> r->Ok_0.path@ == path@,
            r is Err ==> r->Err_0.path@ == path@,
    {
        match parse_version(path) {
            Ok(version) => Ok(Profile { version, path: String::from_str(path) }),
            Err(e) => Err(e),
        }
    }
}

impl PartialEq for Profile {
    /// Profiles compare equal exactly when their versions are equal;
    /// the path deliberately plays no part. Deduplicating by this
    /// equality collapses distinct-path profiles that share a version.
    fn eq(&self, other: &Self) -> bool {
        self.version == other.version
    }
}

impl Eq for Profile {}

impl vstd::std_specs::cmp::PartialEqSpecImpl for Profile {
    open spec fn obeys_eq_spec() -> bool {
        true
    }

    open spec fn eq_spec(&self, other: &Profile) -> bool {
        self.version == other.version
    }
}

impl PartialOrd for Profile {
    /// Profiles order by version alone; profiles that share a version
    /// are unordered relative to each other (they compare equal).
    fn partial_cmp(&self, other: &Self) -> Option<Ordering> {
        if self.version < other.version {
            Some(Ordering::Less)
        } else if self.version == other.version {
            Some(Ordering::Equal)
        } else {
            Some(Ordering::Greater)
        }
    }
}

impl vstd::std_specs::cmp::PartialOrdSpecImpl for Profile {
    open spec fn obeys_partial_cmp_spec() -> bool {
        true
    }

    open spec fn partial_cmp_spec(&self, other: &Profile) -> Option<Ordering> {
        if self.version < other.version {
            Some(Ordering::Less)
        } else if self.version == other.version {
            Some(Ordering::Equal)
        } else {
            Some(Ordering::Greater)
        }
    }
}

/// Law: comparison ignores the path. Profiles that share a version are
/// equal and neither orders below the other, whatever their paths.
pub proof fn lemma_profile_order_ignores_path(a: &Profile, b: &Profile)
    requires
        a.version == b.version,
    ensures
        a.eq_spec(b),
        a.partial_cmp_spec(b) == Some(Ordering::Equal),
{
}

/// Is `s` sorted ascending by version?
pub open spec fn sorted_by_version(s: Seq<Profile>) -> bool {
    forall|i: int, j: int| 0 <= i <= j < s.len() ==> s[i].version <= s[j].version
}

/// Sort profiles ascending by version. The result is a permutation of
/// the input; profiles that share a version end up adjacent, in an
/// unspecified relative order.
pub fn sort_profiles(profiles: &mut Vec<Profile>)
    ensures
        sorted_by_version(final(profiles)@),
        final(profiles)@.to_multiset() == old(profiles)@.to_multiset(),
{
    let ghost orig = profiles@;
    if profiles.len() <= 1 {
        return ;
    }
    let mut idx: usize = 1;
    while idx < profiles.len()
        invariant
            1 <= idx <= profiles@.len(),
            profiles@.len() == orig.len(),
            profiles@.to_multiset() == orig.to_multiset(),
            sorted_by_version(profiles@.subrange(0, idx as int)),
        decreases profiles@.len() - idx,
    {
        let ghost before = profiles@;
        let x = profiles.remove(idx);
        proof {
            before.remove_ensures(idx as int);
            vstd::seq_lib::to_multiset_remove(before, idx as int);
        }
        let mut pos: usize = 0;
        while pos < idx && profiles[pos].version <= x.version
            invariant
                0 <= pos <= idx,
                idx <= profiles@.len(),
                profiles@ == before.remove(idx as int),
                forall|k: int| 0 <= k < pos ==> profiles@[k].version <= x.version,
            decreases idx - pos,
        {
            pos = pos + 1;
        }
        let ghost removed = profiles@;
        proof {
            removed.insert_ensures(pos as int, x);
            vstd::seq_lib::to_multiset_insert(removed, pos as int, x);
            vstd::seq_lib::to_multiset_contains(before, x);
            assert(before[idx as int] == x);
            assert(before.contains(x));
            assert(removed.insert(pos as int, x).to_multiset() =~= before.to_multiset());
        }
        profiles.insert(pos, x);
        proof {
            let after = profiles@;
            assert forall|a: int, b: int| 0 <= a <= b < idx + 1 implies after[a].version
                <= after[b].version by {
                assert(forall|k: int| 0 <= k < pos ==> after[k] == removed[k]);
                assert(forall|k: int|
                    pos <= k < removed.len() ==> after[k + 1] == removed[k]);
                assert(after[pos as int] == x);
                assert(forall|k: int| 0 <= k < idx ==> removed[k] == before[k]);
                if pos < idx {
                    assert(removed[pos as int].version > x.version);
                }
            }
            assert(sorted_by_version(after.subrange(0, idx + 1)));
        }
        idx = idx + 1;
    }
    proof {
        assert(profiles@.subrange(0, profiles@.len() as int) =~= profiles@);
    }
}

/// The name of a synthetic profile link for version `n`:
/// `sys-<n>-link`, with `n` rendered in decimal.
pub open spec fn synthetic_profile_name(n: u64) -> Seq<char> {
    seq!['s', 'y', 's', '-'] + spec_digits(n as nat) + seq!['-', 'l', 'i', 'n', 'k']
}

/// Law: for every version `n` within 64-bit range, parsing the
/// synthetic name `sys-<n>-link` recovers exactly `n`.
pub proof fn lemma_synthetic_name_parses(n: u64)
    ensures
        spec_parse_version(synthetic_profile_name(n)) == Option::Some(n as int),
{
    let digits = spec_digits(n as nat);
    let s = synthetic_profile_name(n);
    lemma_digits_are_numeral(n as nat);
    lemma_digits_val(n as nat);
    let dlen = digits.len() as int;

    // No character of the name is a separator, so the whole name is the
    // final component.
    assert(s.last() == 'k');
    assert(trim_trailing_slashes(s) == s);
    assert forall|i: int| 0 <= i < s.len() implies s[i] != '/' by {
        if 4 <= i < 4 + dlen {
            assert(is_numeral(digits));
            assert(crate::decimal::is_digit_char(digits[i - 4]));
        }
    }
    lemma_after_last_slash_range(s, 0);
    assert(s.subrange(0, s.len() as int) =~= s);
    assert(spec_file_name(s) == Option::Some(s));

    // The first `-` stands right after `sys`, the second right after
    // the digits, so the second token is exactly the digit string.
    assert(s[3] == '-');
    assert(s.contains('-'));
    lemma_after_first_dash_at(s, 3);
    let rest = after_first_dash(s);
    assert(rest =~= digits + seq!['-', 'l', 'i', 'n', 'k']);
    assert forall|k: int| 0 <= k < dlen implies rest[k] != '-' by {
        assert(is_numeral(digits));
        assert(crate::decimal::is_digit_char(digits[k]));
    }
    assert(rest[dlen] == '-');
    lemma_before_first_dash_at(rest, dlen);
    assert(before_first_dash(rest) =~= digits);
    assert(spec_second_token(s) == Option::Some(digits));
}

} // verus!
