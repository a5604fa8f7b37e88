//! Deployment arguments: comma-separated integer lists, integers and flags,
//! as read from the environment or typed at a prompt.
use crate::errors::{Error, ErrorCode};
use crate::text::{lower_of, to_lowercase};
use vstd::prelude::*;

verus! {

pub open spec fn is_digit(c: char) -> bool {
    '0' <= c && c <= '9'
}

pub open spec fn digit_value(c: char) -> int {
    c as int - '0' as int
}

pub open spec fn all_digits(s: Seq<char>) -> bool {
    s.len() > 0 && forall|i: int| 0 <= i < s.len() ==> #[trigger] is_digit(s[i])
}

/// The value of a run of decimal digits.
pub open spec fn digits_value(s: Seq<char>) -> int
    decreases s.len(),
{
    if s.len() == 0 {
        0
    } else {
        digits_value(s.drop_last()) * 10 + digit_value(s.last())
    }
}

/// The integer a text spells: digits with an optional leading sign.
pub open spec fn int_value(s: Seq<char>) -> Option<int> {
    if s.len() > 0 && s[0] == '-' && all_digits(s.drop_first()) {
        Some(-digits_value(s.drop_first()))
    } else if s.len() > 0 && s[0] == '+' && all_digits(s.drop_first()) {
        Some(digits_value(s.drop_first()))
    } else if all_digits(s) {
        Some(digits_value(s))
    } else {
        None
    }
}

/// The `i32` a text spells, if it spells one in range.
pub open spec fn i32_value(s: Seq<char>) -> Option<i32> {
    match int_value(s) {
        Some(v) => if i32::MIN <= v <= i32::MAX {
            Some(v as i32)
        } else {
            None
        },
        None => None,
    }
}

/// The pieces of a text between commas; a text without commas is one piece.
pub open spec fn pieces(s: Seq<char>) -> Seq<Seq<char>>
    decreases s.len(),
{
    if s.len() == 0 {
        seq![Seq::empty()]
    } else if s.last() == ',' {
        pieces(s.drop_last()).push(Seq::empty())
    } else {
        let p = pieces(s.drop_last());
        p.update(p.len() - 1, p.last().push(s.last()))
    }
}

/// The values of a list of pieces, if every piece spells an `i32`.
pub open spec fn list_value(p: Seq<Seq<char>>) -> Option<Seq<i32>>
    decreases p.len(),
{
    if p.len() == 0 {
        Some(Seq::empty())
    } else {
        match (list_value(p.drop_last()), i32_value(p.last())) {
            (Some(vs), Some(v)) => Some(vs.push(v)),
            _ => None,
        }
    }
}

proof fn lemma_pieces_nonempty(s: Seq<char>)
    ensures
        pieces(s).len() >= 1,
    decreases s.len(),
{
    if s.len() > 0 {
        lemma_pieces_nonempty(s.drop_last());
    }
}

proof fn lemma_digits_grow(s: Seq<char>, k: int)
    requires
        0 <= k <= s.len(),
        forall|i: int| 0 <= i < s.len() ==> #[trigger] is_digit(s[i]),
    ensures
        digits_value(s.subrange(0, k)) <= digits_value(s),
        0 <= digits_value(s.subrange(0, k)),
    decreases s.len() - k,
{
    if k < s.len() {
        lemma_digits_grow(s, k + 1);
        let t = s.subrange(0, k + 1);
        assert(t.drop_last() == s.subrange(0, k));
        assert(is_digit(t.last()));
    } else {
        assert(s.subrange(0, k) == s);
        lemma_digits_nonneg(s);
    }
}

proof fn lemma_digits_nonneg(s: Seq<char>)
    requires
        forall|i: int| 0 <= i < s.len() ==> #[trigger] is_digit(s[i]),
    ensures
        0 <= digits_value(s),
    decreases s.len(),
{
    if s.len() > 0 {
        lemma_digits_nonneg(s.drop_last());
        assert(is_digit(s.last()));
    }
}

/// Parses an `i32` written as digits with an optional leading sign.
pub fn parse_i32(s: &str) -> (r: Option<i32>)
    ensures
        r == i32_value(s@),
{
    let n = s.unicode_len();
    if n == 0 {
        return None;
    }
    let first = s.get_char(0);
    let negative = first == '-';
    let start: usize = if first == '-' || first == '+' {
        1
    } else {
        0
    };
    if start == n {
        proof {
            assert(s@.drop_first().len() == 0);
            assert(!is_digit(s@[0]));
        }
        return None;
    }
    let ghost body = s@.subrange(start as int, n as int);
    proof {
        if start == 1 {
            assert(body == s@.drop_first());
        } else {
            assert(body == s@);
        }
    }
    let mut acc: i64 = 0;
    let mut i: usize = start;
    while i < n
        invariant
            n == s@.len(),
            start <= i <= n,
            n > 0,
            first == s@[0],
            negative == (first == '-'),
            start == (if first == '-' || first == '+' {
                1usize
            } else {
                0usize
            }),
            body == s@.subrange(start as int, n as int),
            forall|k: int| start <= k < i ==> #[trigger] is_digit(s@[k]),
            acc == digits_value(s@.subrange(start as int, i as int)),
            0 <= acc <= 2147483648,
        decreases n - i,
    {
        let c = s.get_char(i);
        if c < '0' || c > '9' {
            proof {
                assert(!is_digit(body[i - start]));
                assert(!all_digits(body));
                if start == 1 {
                    assert(!is_digit(s@[0]));
                }
            }
            return None;
        }
        let d = (c as u32 - '0' as u32) as i64;
        let next = acc * 10 + d;
        proof {
            let t = s@.subrange(start as int, i + 1);
            assert(t.drop_last() == s@.subrange(start as int, i as int));
            assert(t.last() == c);
            assert(next == digits_value(t));
        }
        if next > 2147483648 {
            proof {
                if start == 1 {
                    assert(!is_digit(s@[0]));
                }
                if start == 1 {
                    assert(body =~= s@.drop_first());
                } else {
                    assert(body =~= s@);
                }
                if all_digits(body) {
                    lemma_digits_grow(body, i + 1 - start);
                    assert(body.subrange(0, i + 1 - start) =~= s@.subrange(start as int, i + 1));
                    assert(digits_value(body) >= next);
                }
            }
            return None;
        }
        acc = next;
        i = i + 1;
    }
    proof {
        assert(all_digits(body));
        assert(s@.subrange(start as int, n as int) == body);
        if start == 0 {
            assert(s@[0] != '-' && s@[0] != '+');
        }
    }
    if negative {
        Some((-acc) as i32)
    } else if acc > 2147483647 {
        None
    } else {
        Some(acc as i32)
    }
}

/// Parses a comma-separated list of `i32`s; `None` when a piece is not one.
pub fn parse_i32_list(s: &str) -> (r: Option<Vec<i32>>)
    ensures
        match r {
            Some(v) => list_value(pieces(s@)) == Some(v@),
            None => list_value(pieces(s@)) is None,
        },
{
    let n = s.unicode_len();
    let mut out: Vec<i32> = Vec::new();
    let ghost mut done: Seq<Seq<char>> = Seq::empty();
    let mut start: usize = 0;
    let mut i: usize = 0;
    proof {
        assert(s@.subrange(0, 0) =~= Seq::<char>::empty());
        assert(pieces(Seq::<char>::empty()) =~= done.push(Seq::<char>::empty()));
    }
    while i < n
        invariant
            n == s@.len(),
            start <= i <= n,
            pieces(s@.subrange(0, i as int)) == done.push(s@.subrange(start as int, i as int)),
            list_value(done) == Some(out@),
        decreases n - i,
    {
        let c = s.get_char(i);
        let ghost prefix = s@.subrange(0, i + 1);
        proof {
            assert(prefix.drop_last() == s@.subrange(0, i as int));
            assert(prefix.last() == c);
        }
        if c == ',' {
            let piece = s.substring_char(start, i);
            match parse_i32(piece) {
                Some(v) => {
                    proof {
                        let d2 = done.push(s@.subrange(start as int, i as int));
                        assert(d2.drop_last() == done);
                        assert(list_value(d2) == Some(out@.push(v)));
                        done = d2;
                        assert(s@.subrange(i + 1, i + 1) == Seq::<char>::empty());
                    }
                    out.push(v);
                },
                None => {
                    proof {
                        lemma_list_fails_on_bad_piece(s@, i as int, done, s@.subrange(
                            start as int,
                            i as int,
                        ));
                    }
                    return None;
                },
            }
            start = i + 1;
        } else {
            proof {
                let p = done.push(s@.subrange(start as int, i as int));
                assert(s@.subrange(start as int, i + 1) == s@.subrange(start as int, i as int).push(
                    c,
                ));
                assert(p.update(p.len() - 1, p.last().push(c)) == done.push(
                    s@.subrange(start as int, i + 1),
                ));
            }
        }
        i = i + 1;
    }
    proof {
        assert(s@.subrange(0, n as int) == s@);
    }
    let last = s.substring_char(start, n);
    match parse_i32(last) {
        Some(v) => {
            proof {
                let p = done.push(s@.subrange(start as int, n as int));
                assert(p.drop_last() == done);
            }
            out.push(v);
            Some(out)
        },
        None => {
            proof {
                let p = done.push(s@.subrange(start as int, n as int));
                assert(p.drop_last() == done);
            }
            None
        },
    }
}

/// Once a completed piece fails to parse, the whole list fails, whatever
/// follows it.
proof fn lemma_list_fails_on_bad_piece(
    s: Seq<char>,
    i: int,
    done: Seq<Seq<char>>,
    piece: Seq<char>,
)
    requires
        0 <= i < s.len(),
        s[i] == ',',
        pieces(s.subrange(0, i)) == done.push(piece),
        i32_value(piece) is None,
    ensures
        list_value(pieces(s)) is None,
{
    let head = done.push(piece);
    assert(head.drop_last() == done);
    lemma_pieces_prefix(s, i + 1, head);
    lemma_list_prefix_fails(pieces(s), head);
}

/// The pieces of a text start with the pieces completed before any comma in it.
proof fn lemma_pieces_prefix(s: Seq<char>, j: int, head: Seq<Seq<char>>)
    requires
        0 < j <= s.len(),
        s[j - 1] == ',',
        pieces(s.subrange(0, j - 1)) == head,
    ensures
        pieces(s).len() > head.len(),
        pieces(s).subrange(0, head.len() as int) == head,
    decreases s.len(),
{
    if s.len() == j {
        assert(s.drop_last() == s.subrange(0, j - 1));
        assert(pieces(s) == head.push(Seq::empty()));
        assert(pieces(s).subrange(0, head.len() as int) == head);
    } else {
        let t = s.drop_last();
        assert(t.subrange(0, j - 1) == s.subrange(0, j - 1));
        lemma_pieces_prefix(t, j, head);
        lemma_pieces_nonempty(t);
        let p = pieces(t);
        if s.last() == ',' {
            assert(pieces(s) == p.push(Seq::empty()));
            assert(pieces(s).subrange(0, head.len() as int) == p.subrange(0, head.len() as int));
        } else {
            let q = p.update(p.len() - 1, p.last().push(s.last()));
            assert(pieces(s) == q);
            assert(q.subrange(0, head.len() as int) =~= p.subrange(0, head.len() as int));
        }
    }
}

proof fn lemma_list_prefix_fails(p: Seq<Seq<char>>, head: Seq<Seq<char>>)
    requires
        head.len() <= p.len(),
        p.subrange(0, head.len() as int) == head,
        list_value(head) is None,
    ensures
        list_value(p) is None,
    decreases p.len(),
{
    if p.len() > head.len() {
        let q = p.drop_last();
        assert(q.subrange(0, head.len() as int) == head);
        lemma_list_prefix_fails(q, head);
    } else {
        assert(p == head);
    }
}

/// Unicode `White_Space`, the characters `char::is_whitespace` accepts.
pub open spec fn is_white_space(c: char) -> bool {
    let u = c as u32;
    (0x9 <= u && u <= 0xd) || u == 0x20 || u == 0x85 || u == 0xa0 || u == 0x1680 || (0x2000 <= u
        && u <= 0x200a) || u == 0x2028 || u == 0x2029 || u == 0x202f || u == 0x205f || u == 0x3000
}

pub open spec fn trim_start_of(s: Seq<char>) -> Seq<char>
    decreases s.len(),
{
    if s.len() > 0 && is_white_space(s[0]) {
        trim_start_of(s.drop_first())
    } else {
        s
    }
}

pub open spec fn trim_end_of(s: Seq<char>) -> Seq<char>
    decreases s.len(),
{
    if s.len() > 0 && is_white_space(s.last()) {
        trim_end_of(s.drop_last())
    } else {
        s
    }
}

/// A text without its leading and trailing runs of white space.
pub open spec fn trimmed_of(s: Seq<char>) -> Seq<char> {
    trim_end_of(trim_start_of(s))
}

/// Relies on `str::trim`, which removes leading and trailing characters with
/// the Unicode `White_Space` property.
#[verifier::external_body]
fn trimmed(s: &str) -> (r: &str)
    ensures
        r@ == trimmed_of(s@),
{
    s.trim()
}

/// Whether a typed or configured answer, lower-cased and trimmed, is exactly
/// `expected`.
pub fn answer_is(answer: &str, expected: &str) -> (r: bool)
    ensures
        r == (trimmed_of(lower_of(answer@)) == expected@),
{
    let lower = to_lowercase(answer);
    let t = trimmed(lower.as_str());
    let n = t.unicode_len();
    if n != expected.unicode_len() {
        return false;
    }
    let mut i: usize = 0;
    while i < n
        invariant
            n == t@.len(),
            t@ == trimmed_of(lower_of(answer@)),
            n == expected@.len(),
            i <= n,
            forall|k: int| 0 <= k < i ==> t@[k] == expected@[k],
        decreases n - i,
    {
        if t.get_char(i) != expected.get_char(i) {
            return false;
        }
        i = i + 1;
    }
    proof {
        assert(t@ =~= expected@);
    }
    true
}

/// Parses a trimmed comma-separated list of `i32`s.
pub fn parse_list_field(text: &str) -> (r: Option<Vec<i32>>)
    ensures
        match r {
            Some(v) => list_value(pieces(trimmed_of(text@))) == Some(v@),
            None => list_value(pieces(trimmed_of(text@))) is None,
        },
{
    parse_i32_list(trimmed(text))
}

/// Parses a trimmed `i32`.
pub fn parse_int_field(text: &str) -> (r: Option<i32>)
    ensures
        r == i32_value(trimmed_of(text@)),
{
    parse_i32(trimmed(text))
}

/// What a deployment recalculates.
pub struct DeployArgs {
    /// Rulesets, each 0 to 3.
    pub modes: Vec<i32>,
    /// Mod classes, each 0 to 2.
    pub relax_bits: Vec<i32>,
    /// Skip the per-score phase.
    pub total_pp_only: bool,
    /// Run the per-user phase.
    pub total_pp: bool,
    pub mods_filter: Option<i32>,
    pub neq_mods_filter: Option<i32>,
    pub mapper_filter: Option<String>,
    pub map_filter: Option<Vec<i32>>,
}

pub open spec fn all_within(v: Seq<i32>, lo: int, hi: int) -> bool {
    forall|i: int| 0 <= i < v.len() ==> lo <= #[trigger] v[i] <= hi
}

fn check_within(v: &Vec<i32>, lo: i32, hi: i32) -> (r: bool)
    ensures
        r == all_within(v@, lo as int, hi as int),
{
    let mut i: usize = 0;
    while i < v.len()
        invariant
            i <= v@.len(),
            all_within(v@.subrange(0, i as int), lo as int, hi as int),
        decreases v@.len() - i,
    {
        if v[i] < lo || v[i] > hi {
            proof {
                assert(!(lo <= v@[i as int] <= hi));
            }
            return false;
        }
        proof {
            assert forall|k: int| 0 <= k < i + 1 implies lo <= #[trigger] v@.subrange(
                0,
                i + 1,
            )[k] <= hi by {
                if k < i {
                    assert(v@.subrange(0, i + 1)[k] == v@.subrange(0, i as int)[k]);
                }
            }
        }
        i = i + 1;
    }
    proof {
        assert(v@.subrange(0, v@.len() as int) == v@);
    }
    true
}

/// The raw texts a deployment is configured with.
pub struct DeployTexts {
    pub modes: String,
    pub relax_bits: String,
    pub total_pp_only: bool,
    pub total_pp: bool,
    pub mods_filter: Option<String>,
    pub neq_mods_filter: Option<String>,
    pub mapper_filter: Option<String>,
    pub map_filter: Option<String>,
}

pub open spec fn optional_int_ok(t: Option<String>) -> bool {
    t matches Some(x) ==> i32_value(trimmed_of(x@)) is Some
}

pub open spec fn optional_list_ok(t: Option<String>) -> bool {
    t matches Some(x) ==> list_value(pieces(trimmed_of(x@))) is Some
}

/// The texts describe a deployment: both lists and every filter given parse,
/// rulesets are 0 to 3 and mod classes 0 to 2.
pub open spec fn texts_valid(t: DeployTexts) -> bool {
    &&& list_value(pieces(trimmed_of(t.modes@))) matches Some(m) && all_within(m, 0, 3)
    &&& list_value(pieces(trimmed_of(t.relax_bits@))) matches Some(x) && all_within(x, 0, 2)
    &&& optional_int_ok(t.mods_filter)
    &&& optional_int_ok(t.neq_mods_filter)
    &&& optional_list_ok(t.map_filter)
}

/// `a` is what the texts describe.
pub open spec fn args_match(a: DeployArgs, t: DeployTexts) -> bool {
    &&& list_value(pieces(trimmed_of(t.modes@))) == Some(a.modes@)
    &&& list_value(pieces(trimmed_of(t.relax_bits@))) == Some(a.relax_bits@)
    &&& a.total_pp_only == t.total_pp_only
    &&& a.total_pp == t.total_pp
    &&& (match t.mods_filter {
        Some(x) => a.mods_filter == i32_value(trimmed_of(x@)),
        None => a.mods_filter is None,
    })
    &&& (match t.neq_mods_filter {
        Some(x) => a.neq_mods_filter == i32_value(trimmed_of(x@)),
        None => a.neq_mods_filter is None,
    })
    &&& a.mapper_filter == t.mapper_filter
    &&& (match t.map_filter {
        Some(x) => a.map_filter matches Some(v) && list_value(pieces(trimmed_of(x@))) == Some(
            v@,
        ),
        None => a.map_filter is None,
    })
}

fn optional_int(t: &Option<String>) -> (r: Result<Option<i32>, ()>)
    ensures
        match *t {
            Some(x) => match i32_value(trimmed_of(x@)) {
                Some(v) => r == Ok::<Option<i32>, ()>(Some(v)),
                None => r is Err,
            },
            None => r == Ok::<Option<i32>, ()>(None),
        },
{
    match t {
        Some(x) => match parse_int_field(x.as_str()) {
            Some(v) => Ok(Some(v)),
            None => Err(()),
        },
        None => Ok(None),
    }
}

/// Builds the deployment arguments from their texts, or a bad-request error
/// when they do not describe a deployment.
pub fn deploy_args_from_texts(t: DeployTexts) -> (r: Result<DeployArgs, Error>)
    ensures
        texts_valid(t) <==> r is Ok,
        r matches Ok(a) ==> args_match(a, t),
        r matches Err(e) ==> e.error_code == ErrorCode::BadRequest,
{
    let bad = Error::new(ErrorCode::BadRequest, "Invalid deployment arguments");
    let modes = match parse_list_field(t.modes.as_str()) {
        Some(v) => v,
        None => return Err(bad),
    };
    if !check_within(&modes, 0, 3) {
        return Err(bad);
    }
    let relax_bits = match parse_list_field(t.relax_bits.as_str()) {
        Some(v) => v,
        None => return Err(bad),
    };
    if !check_within(&relax_bits, 0, 2) {
        return Err(bad);
    }
    let mods_filter = match optional_int(&t.mods_filter) {
        Ok(v) => v,
        Err(_) => return Err(bad),
    };
    let neq_mods_filter = match optional_int(&t.neq_mods_filter) {
        Ok(v) => v,
        Err(_) => return Err(bad),
    };
    let map_filter = match &t.map_filter {
        Some(x) => match parse_list_field(x.as_str()) {
            Some(v) => Some(v),
            None => return Err(bad),
        },
        None => None,
    };
    Ok(
        DeployArgs {
            modes,
            relax_bits,
            total_pp_only: t.total_pp_only,
            total_pp: t.total_pp,
            mods_filter,
            neq_mods_filter,
            mapper_filter: t.mapper_filter,
            map_filter,
        },
    )
}

} // verus!
