//! Version identifiers: the `go` prefix, the dotted numeric base, the
//! pre-release suffix, and the order in which versions sort.
use std::cmp::Ordering;
use vstd::prelude::*;
use vstd::string::StrSliceExecFns;
use crate::text::{chars_of, contains, contains_chars};

verus! {

/// True when `s` carries the reserved `go` prefix.
pub open spec fn has_go_prefix(s: Seq<char>) -> bool {
    s.len() >= 2 && s[0] == 'g' && s[1] == 'o'
}

/// The canonical form of a raw version: `go` is prepended unless already present.
pub open spec fn normalized(s: Seq<char>) -> Seq<char> {
    if has_go_prefix(s) {
        s
    } else {
        seq!['g', 'o'] + s
    }
}

/// An ASCII decimal digit.
pub open spec fn is_digit(c: char) -> bool {
    '0' as u32 <= c as u32 && c as u32 <= '9' as u32
}

/// The value of one ASCII digit.
pub open spec fn digit_value(c: char) -> nat {
    (c as u32 - '0' as u32) as nat
}

/// The decimal value of a run of digits.
pub open spec fn digits_value(g: Seq<char>) -> nat
    decreases g.len(),
{
    if g.len() == 0 {
        0
    } else {
        10 * digits_value(g.drop_last()) + digit_value(g.last())
    }
}

/// The end of the run of digits in `s` that starts at `i` (or `i` when none starts there).
pub open spec fn run_end(s: Seq<char>, i: int) -> int
    decreases s.len() - i,
{
    if 0 <= i < s.len() && is_digit(s[i]) {
        run_end(s, i + 1)
    } else {
        i
    }
}

/// After the digit run that ends at `e`, a dot and another digit run follow.
pub open spec fn group_continues(s: Seq<char>, e: int) -> bool {
    e + 1 < s.len() && s[e] == '.' && is_digit(s[e + 1])
}

/// Where the dotted base `digits(.digits)*` that starts at `i` ends.
pub open spec fn base_end(s: Seq<char>, i: int) -> int
    decreases s.len() - i,
{
    let e = run_end(s, i);
    if 0 <= i < e && group_continues(s, e) {
        base_end(s, e + 1)
    } else {
        e
    }
}

/// The numbers of the dotted base that starts at `i`, one per group; a
/// group whose value does not fit in 32 bits is left out.
pub open spec fn groups_from(s: Seq<char>, i: int) -> Seq<u32>
    decreases s.len() - i,
{
    let e = run_end(s, i);
    if 0 <= i < e {
        let v = digits_value(s.subrange(i, e));
        let head = if v <= u32::MAX {
            seq![v as u32]
        } else {
            Seq::<u32>::empty()
        };
        if group_continues(s, e) {
            head + groups_from(s, e + 1)
        } else {
            head
        }
    } else {
        Seq::<u32>::empty()
    }
}

/// `s` has the shape `go<digits>...`: it has a numeric base.
pub open spec fn has_base(s: Seq<char>) -> bool {
    has_go_prefix(s) && s.len() > 2 && is_digit(s[2])
}

/// The numeric base of a version, empty when it has none.
pub open spec fn version_base(s: Seq<char>) -> Seq<u32> {
    if has_base(s) {
        groups_from(s, 2)
    } else {
        Seq::<u32>::empty()
    }
}

/// Everything after the numeric base, empty when there is no base.
pub open spec fn version_suffix(s: Seq<char>) -> Seq<char> {
    if has_base(s) {
        s.subrange(base_end(s, 2), s.len() as int)
    } else {
        Seq::<char>::empty()
    }
}

/// `s` without its `go` prefix.
pub open spec fn strip_go(s: Seq<char>) -> Seq<char> {
    if has_go_prefix(s) {
        s.subrange(2, s.len() as int)
    } else {
        s
    }
}

/// `t` mentions one of the pre-release markers `rc`, `beta`, `alpha`.
pub open spec fn has_prerelease_marker(t: Seq<char>) -> bool {
    contains(t, seq!['r', 'c']) || contains(t, seq!['b', 'e', 't', 'a']) || contains(
        t,
        seq!['a', 'l', 'p', 'h', 'a'],
    )
}

/// A version is stable when it has no suffix and mentions no pre-release marker.
pub open spec fn is_stable(s: Seq<char>) -> bool {
    version_suffix(s).len() == 0 && !has_prerelease_marker(strip_go(s))
}

/// Lexicographic order of two number sequences; a proper prefix sorts first.
pub open spec fn lex_cmp(a: Seq<u32>, b: Seq<u32>) -> Ordering
    decreases a.len(),
{
    if a.len() == 0 {
        if b.len() == 0 {
            Ordering::Equal
        } else {
            Ordering::Less
        }
    } else if b.len() == 0 {
        Ordering::Greater
    } else if a[0] < b[0] {
        Ordering::Less
    } else if a[0] > b[0] {
        Ordering::Greater
    } else {
        lex_cmp(a.drop_first(), b.drop_first())
    }
}

/// The code points of a character sequence.
pub open spec fn code_points(s: Seq<char>) -> Seq<u32> {
    s.map_values(|c: char| c as u32)
}

/// How two suffixes of versions with the same base compare: a pre-release
/// (non-empty suffix) precedes the release, two suffixes compare lexicographically.
pub open spec fn suffix_cmp(a: Seq<char>, b: Seq<char>) -> Ordering {
    if a.len() > 0 && b.len() == 0 {
        Ordering::Less
    } else if a.len() == 0 && b.len() > 0 {
        Ordering::Greater
    } else if a.len() == 0 && b.len() == 0 {
        Ordering::Equal
    } else {
        lex_cmp(code_points(a), code_points(b))
    }
}

/// The order of versions: by numeric base first, then by suffix.
pub open spec fn version_cmp(a: Seq<char>, b: Seq<char>) -> Ordering {
    match lex_cmp(version_base(a), version_base(b)) {
        Ordering::Equal => suffix_cmp(version_suffix(a), version_suffix(b)),
        o => o,
    }
}

/// Ensures that a version string carries the `go` prefix, prepending it when absent.
pub fn get_real_version(version: String) -> (r: String)
    ensures
        r@ == normalized(version@),
{
    let cs = chars_of(version.as_str());
    if cs.len() >= 2 && cs[0] == 'g' && cs[1] == 'o' {
        version
    } else {
        let mut r = String::from_str("go");
        proof {
            reveal_strlit("go");
        }
        r.append(version.as_str());
        assert(r@ =~= normalized(version@));
        r
    }
}

/// Whether `c` is an ASCII digit.
pub fn is_digit_char(c: char) -> (r: bool)
    ensures
        r == is_digit(c),
{
    '0' <= c && c <= '9'
}

proof fn lemma_digits_value_step(s: Seq<char>, i: int, j: int)
    requires
        0 <= i <= j < s.len(),
    ensures
        digits_value(s.subrange(i, j + 1)) == 10 * digits_value(s.subrange(i, j)) + digit_value(
            s[j],
        ),
{
    assert(s.subrange(i, j + 1).drop_last() =~= s.subrange(i, j));
}

/// Splits a version into its numeric base and its suffix, as in
/// `go1.24.0` => ([1, 24, 0], "") and `go1.24rc1` => ([1, 24], "rc1").
pub fn parse_version_parts(version: &str) -> (r: (Vec<u32>, String))
    ensures
        r.0@ == version_base(version@),
        r.1@ == version_suffix(version@),
{
    let s = chars_of(version);
    let n: usize = s.len();
    if !(n > 2 && s[0] == 'g' && s[1] == 'o' && is_digit_char(s[2])) {
        return (Vec::new(), String::new());
    }
    let mut parts: Vec<u32> = Vec::new();
    let mut i: usize = 2;
    loop
        invariant
            n == s@.len(),
            s@ == version@,
            has_base(s@),
            2 <= i < n,
            is_digit(s@[i as int]),
            groups_from(s@, 2) == parts@ + groups_from(s@, i as int),
            base_end(s@, 2) == base_end(s@, i as int),
        decreases n - i,
    {
        let mut j: usize = i;
        let mut val: u64 = 0;
        let mut big: bool = false;
        while j < n && is_digit_char(s[j])
            invariant
                n == s@.len(),
                i <= j <= n,
                i < n,
                run_end(s@, j as int) == run_end(s@, i as int),
                !big ==> val == digits_value(s@.subrange(i as int, j as int)) && val <= u32::MAX,
                big ==> digits_value(s@.subrange(i as int, j as int)) > u32::MAX,
            decreases n - j,
        {
            proof {
                lemma_digits_value_step(s@, i as int, j as int);
            }
            if !big {
                let d: u64 = (s[j] as u32 - '0' as u32) as u64;
                let nv: u64 = val * 10 + d;
                if nv > u32::MAX as u64 {
                    big = true;
                } else {
                    val = nv;
                }
            }
            j = j + 1;
        }
        assert(run_end(s@, j as int) == j);
        assert(j > i) by {
            assert(run_end(s@, i as int) == run_end(s@, i + 1));
        }
        if !big {
            parts.push(val as u32);
        }
        if j < n - 1 && s[j] == '.' && is_digit_char(s[j + 1]) {
            proof {
                assert(group_continues(s@, j as int));
                assert(parts@ + groups_from(s@, j + 1) =~= groups_from(s@, 2));
            }
            i = j + 1;
        } else {
            assert(!group_continues(s@, j as int));
            assert(parts@ =~= groups_from(s@, 2));
            assert(base_end(s@, i as int) == j);
            let suffix = version.substring_char(j, n);
            let r = String::from_str(suffix);
            return (parts, r);
        }
    }
}

/// Lexicographic comparison of two number sequences.
fn compare_lex(a: &Vec<u32>, b: &Vec<u32>) -> (r: Ordering)
    ensures
        r == lex_cmp(a@, b@),
{
    let mut i: usize = 0;
    assert(a@.subrange(0, a@.len() as int) =~= a@);
    assert(b@.subrange(0, b@.len() as int) =~= b@);
    loop
        invariant
            i <= a@.len(),
            i <= b@.len(),
            lex_cmp(a@, b@) == lex_cmp(a@.subrange(i as int, a@.len() as int), b@.subrange(i as int, b@.len() as int)),
        decreases a@.len() - i,
    {
        let ghost ra = a@.subrange(i as int, a@.len() as int);
        let ghost rb = b@.subrange(i as int, b@.len() as int);
        if i == a.len() {
            if i == b.len() {
                return Ordering::Equal;
            }
            return Ordering::Less;
        }
        if i == b.len() {
            return Ordering::Greater;
        }
        if a[i] < b[i] {
            return Ordering::Less;
        }
        if a[i] > b[i] {
            return Ordering::Greater;
        }
        assert(ra.drop_first() =~= a@.subrange(i + 1, a@.len() as int));
        assert(rb.drop_first() =~= b@.subrange(i + 1, b@.len() as int));
        i = i + 1;
    }
}

/// The code points of a string, in order.
fn code_points_of(s: &String) -> (r: Vec<u32>)
    ensures
        r@ == code_points(s@),
{
    let cs = chars_of(s.as_str());
    let mut r: Vec<u32> = Vec::new();
    let mut i: usize = 0;
    while i < cs.len()
        invariant
            cs@ == s@,
            i <= cs@.len(),
            r@ =~= code_points(cs@.subrange(0, i as int)),
        decreases cs@.len() - i,
    {
        r.push(cs[i] as u32);
        i = i + 1;
        assert(r@ =~= code_points(cs@.subrange(0, i as int)));
    }
    assert(cs@.subrange(0, i as int) =~= cs@);
    r
}

/// Compares two version strings: by numeric base, then pre-releases before
/// the release, then suffixes lexicographically.
pub fn cmp_versions(a: &str, b: &str) -> (r: Ordering)
    ensures
        r == version_cmp(a@, b@),
{
    let (base_a, suffix_a) = parse_version_parts(a);
    let (base_b, suffix_b) = parse_version_parts(b);
    match compare_lex(&base_a, &base_b) {
        Ordering::Equal => {
            let ea = suffix_a.unicode_len() == 0;
            let eb = suffix_b.unicode_len() == 0;
            if !ea && eb {
                Ordering::Less
            } else if ea && !eb {
                Ordering::Greater
            } else if ea && eb {
                Ordering::Equal
            } else {
                compare_lex(&code_points_of(&suffix_a), &code_points_of(&suffix_b))
            }
        },
        o => o,
    }
}

/// True when the version is stable: it has no suffix after its numeric base
/// and, without its `go` prefix, mentions none of `rc`, `beta`, `alpha`.
pub fn is_stable_version(version: &str) -> (r: bool)
    ensures
        r == is_stable(version@),
{
    let (_, suffix) = parse_version_parts(version);
    if suffix.unicode_len() != 0 {
        return false;
    }
    let cs = chars_of(version);
    let trimmed = if cs.len() >= 2 && cs[0] == 'g' && cs[1] == 'o' {
        version.substring_char(2, cs.len())
    } else {
        version
    };
    let t = chars_of(trimmed);
    let rc = chars_of("rc");
    let beta = chars_of("beta");
    let alpha = chars_of("alpha");
    proof {
        reveal_strlit("rc");
        reveal_strlit("beta");
        reveal_strlit("alpha");
        assert(rc@ =~= seq!['r', 'c']);
        assert(beta@ =~= seq!['b', 'e', 't', 'a']);
        assert(alpha@ =~= seq!['a', 'l', 'p', 'h', 'a']);
    }
    !(contains_chars(&t, &rc) || contains_chars(&t, &beta) || contains_chars(&t, &alpha))
}

/// Normalizing is idempotent: a canonical version is left as it is.
pub proof fn lemma_normalize_idempotent(s: Seq<char>)
    ensures
        normalized(normalized(s)) == normalized(s),
{
    if !has_go_prefix(s) {
        let n = seq!['g', 'o'] + s;
        assert(n[0] == 'g' && n[1] == 'o');
    }
}

/// Every sequence compares equal to itself.
pub proof fn lemma_lex_cmp_reflexive(a: Seq<u32>)
    ensures
        lex_cmp(a, a) == Ordering::Equal,
    decreases a.len(),
{
    if a.len() > 0 {
        lemma_lex_cmp_reflexive(a.drop_first());
    }
}

/// Swapping the arguments reverses the comparison, and only equal
/// sequences compare equal.
pub proof fn lemma_lex_cmp_antisymmetric(a: Seq<u32>, b: Seq<u32>)
    ensures
        lex_cmp(a, b) == Ordering::Less <==> lex_cmp(b, a) == Ordering::Greater,
        lex_cmp(a, b) == Ordering::Equal <==> a == b,
    decreases a.len(),
{
    if a.len() > 0 && b.len() > 0 {
        lemma_lex_cmp_antisymmetric(a.drop_first(), b.drop_first());
        if a[0] == b[0] && a.drop_first() == b.drop_first() {
            assert(a =~= seq![a[0]] + a.drop_first());
            assert(b =~= seq![b[0]] + b.drop_first());
        }
    } else if a.len() == 0 && b.len() == 0 {
        assert(a =~= b);
    }
    if a == b {
        lemma_lex_cmp_reflexive(a);
    }
}

/// "Not greater" is transitive.
pub proof fn lemma_lex_cmp_transitive(a: Seq<u32>, b: Seq<u32>, c: Seq<u32>)
    requires
        lex_cmp(a, b) != Ordering::Greater,
        lex_cmp(b, c) != Ordering::Greater,
    ensures
        lex_cmp(a, c) != Ordering::Greater,
        lex_cmp(a, b) == Ordering::Less || lex_cmp(b, c) == Ordering::Less ==> lex_cmp(a, c)
            == Ordering::Less,
    decreases a.len(),
{
    if a.len() > 0 && b.len() > 0 && c.len() > 0 {
        if a[0] == b[0] && b[0] == c[0] {
            lemma_lex_cmp_transitive(a.drop_first(), b.drop_first(), c.drop_first());
        }
    }
}

proof fn lemma_suffix_cmp_antisymmetric(a: Seq<char>, b: Seq<char>)
    ensures
        suffix_cmp(a, b) == Ordering::Less <==> suffix_cmp(b, a) == Ordering::Greater,
        suffix_cmp(a, b) == Ordering::Equal <==> suffix_cmp(b, a) == Ordering::Equal,
{
    lemma_lex_cmp_antisymmetric(code_points(a), code_points(b));
    lemma_lex_cmp_antisymmetric(code_points(b), code_points(a));
}

proof fn lemma_suffix_cmp_transitive(a: Seq<char>, b: Seq<char>, c: Seq<char>)
    requires
        suffix_cmp(a, b) != Ordering::Greater,
        suffix_cmp(b, c) != Ordering::Greater,
    ensures
        suffix_cmp(a, c) != Ordering::Greater,
{
    if a.len() > 0 && b.len() > 0 && c.len() > 0 {
        lemma_lex_cmp_transitive(code_points(a), code_points(b), code_points(c));
    }
}

/// A pre-release sorts before the release with the same numeric base.
pub proof fn lemma_prerelease_precedes_release(a: Seq<char>, b: Seq<char>)
    requires
        version_base(a) == version_base(b),
        version_suffix(a).len() > 0,
        version_suffix(b).len() == 0,
    ensures
        version_cmp(a, b) == Ordering::Less,
{
    lemma_lex_cmp_reflexive(version_base(a));
}

/// Swapping two versions reverses their comparison; equal stays equal.
pub proof fn lemma_version_cmp_antisymmetric(a: Seq<char>, b: Seq<char>)
    ensures
        version_cmp(a, b) == Ordering::Less <==> version_cmp(b, a) == Ordering::Greater,
        version_cmp(a, b) == Ordering::Equal <==> version_cmp(b, a) == Ordering::Equal,
{
    lemma_lex_cmp_antisymmetric(version_base(a), version_base(b));
    lemma_lex_cmp_antisymmetric(version_base(b), version_base(a));
    lemma_suffix_cmp_antisymmetric(version_suffix(a), version_suffix(b));
}

/// The version order is transitive, so it sorts consistently.
pub proof fn lemma_version_cmp_transitive(a: Seq<char>, b: Seq<char>, c: Seq<char>)
    requires
        version_cmp(a, b) != Ordering::Greater,
        version_cmp(b, c) != Ordering::Greater,
    ensures
        version_cmp(a, c) != Ordering::Greater,
{
    let (ba, bb, bc) = (version_base(a), version_base(b), version_base(c));
    lemma_lex_cmp_antisymmetric(ba, bb);
    lemma_lex_cmp_antisymmetric(bb, bc);
    lemma_lex_cmp_antisymmetric(ba, bc);
    lemma_lex_cmp_transitive(ba, bb, bc);
    if ba == bb && bb == bc {
        lemma_suffix_cmp_transitive(version_suffix(a), version_suffix(b), version_suffix(c));
    }
}

} // verus!
