//! Verified text utilities: filename-prefix tests, decimal rendering and
//! parsing, whitespace splitting and lexicographic ordering.
//!
//! The staging protocol of the pipeline is carried entirely by filenames,
//! so every piece of string manipulation here is specified exactly.

use vstd::multiset::Multiset;
use vstd::prelude::*;
use vstd::string::*;

verus! {

/// Holds when `p` is a prefix of `s`.
pub open spec fn has_prefix(s: Seq<char>, p: Seq<char>) -> bool {
    p.len() <= s.len() && s.subrange(0, p.len() as int) == p
}

/// Whether the string starts with the given prefix.
pub fn str_has_prefix(s: &str, p: &str) -> (r: bool)
    ensures
        r == has_prefix(s@, p@),
{
    let sl = s.unicode_len();
    let pl = p.unicode_len();
    if pl > sl {
        proof {
            assert(!has_prefix(s@, p@));
        }
        return false;
    }
    let mut i: usize = 0;
    while i < pl
        invariant
            i <= pl <= sl,
            sl == s@.len(),
            pl == p@.len(),
            forall|j: int| 0 <= j < i ==> s@[j] == p@[j],
        decreases pl - i,
    {
        if s.get_char(i) != p.get_char(i) {
            proof {
                assert(s@.subrange(0, pl as int)[i as int] != p@[i as int]);
            }
            return false;
        }
        i += 1;
    }
    proof {
        assert(s@.subrange(0, pl as int) =~= p@);
    }
    true
}

/// Relies on `String::push` of std: appends the character to the end of
/// the string.
#[verifier::external_body]
pub fn push_char(s: &mut String, c: char)
    ensures
        final(s)@ == old(s)@.push(c),
{
    s.push(c);
}

/// The character for one decimal digit.
pub open spec fn dec_digit(d: nat) -> char {
    if d == 0 {
        '0'
    } else if d == 1 {
        '1'
    } else if d == 2 {
        '2'
    } else if d == 3 {
        '3'
    } else if d == 4 {
        '4'
    } else if d == 5 {
        '5'
    } else if d == 6 {
        '6'
    } else if d == 7 {
        '7'
    } else if d == 8 {
        '8'
    } else {
        '9'
    }
}

/// The digits of `n` written in base ten, most significant first, with no
/// digits at all for zero.
pub open spec fn dec_rep_aux(n: nat) -> Seq<char>
    decreases n,
{
    if n == 0 {
        Seq::empty()
    } else {
        dec_rep_aux(n / 10).push(dec_digit(n % 10))
    }
}

/// The usual decimal rendering of `n`: no leading zeros, and a single
/// `'0'` for zero itself.
pub open spec fn dec_rep(n: nat) -> Seq<char> {
    if n == 0 {
        seq!['0']
    } else {
        dec_rep_aux(n)
    }
}

/// The character for a digit below ten.
fn digit_char(d: u64) -> (c: char)
    requires
        d < 10,
    ensures
        c == dec_digit(d as nat),
{
    if d == 0 {
        '0'
    } else if d == 1 {
        '1'
    } else if d == 2 {
        '2'
    } else if d == 3 {
        '3'
    } else if d == 4 {
        '4'
    } else if d == 5 {
        '5'
    } else if d == 6 {
        '6'
    } else if d == 7 {
        '7'
    } else if d == 8 {
        '8'
    } else {
        '9'
    }
}

proof fn lemma_reverse_push(s: Seq<char>, a: char)
    ensures
        s.push(a).reverse() =~= seq![a] + s.reverse(),
{
}

/// Renders `n` in decimal.
pub fn u64_to_string(n: u64) -> (r: String)
    ensures
        r@ == dec_rep(n as nat),
{
    let mut digits: Vec<char> = Vec::new();
    let mut m = n;
    while m > 0
        invariant
            dec_rep_aux(n as nat) =~= dec_rep_aux(m as nat) + digits@.reverse(),
        decreases m,
    {
        let d = m % 10;
        proof {
            lemma_reverse_push(digits@, dec_digit(d as nat));
            assert(dec_rep_aux(m as nat) == dec_rep_aux((m / 10) as nat).push(
                dec_digit((m % 10) as nat),
            ));
            assert(dec_rep_aux((m / 10) as nat) + (digits@.push(dec_digit(d as nat))).reverse()
                =~= dec_rep_aux(m as nat) + digits@.reverse());
        }
        digits.push(digit_char(d));
        m = m / 10;
    }
    if digits.len() == 0 {
        digits.push('0');
        proof {
            assert(n == 0) by {
                if n > 0 {
                    assert(dec_rep_aux(n as nat).len() > 0);
                }
            }
            assert(digits@.reverse() =~= seq!['0']);
        }
    }
    proof {
        if n > 0 {
            assert(digits@.reverse() =~= dec_rep(n as nat));
        }
    }
    let mut out = String::new();
    let ghost len = digits@.len();
    let mut i = digits.len();
    while i > 0
        invariant
            i <= len,
            len == digits@.len(),
            out@.len() == len - i,
            forall|j: int| 0 <= j < out@.len() ==> out@[j] == digits@[len - 1 - j],
        decreases i,
    {
        i -= 1;
        let c = digits[i];
        push_char(&mut out, c);
    }
    proof {
        assert(out@ =~= digits@.reverse());
    }
    out
}

/// Holds of the ten decimal digit characters.
pub open spec fn is_digit(c: char) -> bool {
    '0' as u32 <= c as u32 <= '9' as u32
}

proof fn lemma_dec_rep_aux_digits(n: nat)
    ensures
        forall|j: int| 0 <= j < dec_rep_aux(n).len() ==> is_digit(#[trigger] dec_rep_aux(n)[j]),
    decreases n,
{
    if n > 0 {
        lemma_dec_rep_aux_digits(n / 10);
        assert(is_digit(dec_digit(n % 10)));
        assert forall|j: int| 0 <= j < dec_rep_aux(n).len() implies is_digit(
            #[trigger] dec_rep_aux(n)[j],
        ) by {
            if j < dec_rep_aux(n).len() - 1 {
                assert(dec_rep_aux(n)[j] == dec_rep_aux(n / 10)[j]);
            }
        }
    }
}

/// A digit character is not a dot.
pub proof fn lemma_digit_not_dot(c: char)
    requires
        is_digit(c),
    ensures
        c != '.',
{
    if c == '.' {
        assert(('.' as u32) < ('0' as u32));
    }
}

/// Every character of a decimal rendering is a digit.
pub proof fn lemma_dec_rep_digits(n: nat)
    ensures
        forall|j: int| 0 <= j < dec_rep(n).len() ==> is_digit(#[trigger] dec_rep(n)[j]),
{
    if n == 0 {
        assert(is_digit('0'));
        assert(dec_rep(0) == seq!['0']);
        assert(dec_rep(0)[0] == '0');
    } else {
        lemma_dec_rep_aux_digits(n);
    }
}

/// The numeric value of a digit character.
pub open spec fn digit_val(c: char) -> nat {
    (c as u32 - '0' as u32) as nat
}

/// Holds when the string is one or more decimal digits and nothing else.
pub open spec fn all_digits(s: Seq<char>) -> bool {
    s.len() > 0 && forall|i: int| 0 <= i < s.len() ==> is_digit(#[trigger] s[i])
}

/// The value of a digit string read in base ten.
pub open spec fn dec_val(s: Seq<char>) -> nat
    decreases s.len(),
{
    if s.len() == 0 {
        0
    } else {
        dec_val(s.drop_last()) * 10 + digit_val(s.last())
    }
}

/// The numeric value of a digit character, or nothing for any other character.
pub fn char_digit(c: char) -> (r: Option<u64>)
    ensures
        r is Some <==> is_digit(c),
        r is Some ==> r->0 == digit_val(c) && r->0 < 10,
{
    match c {
        '0' => Some(0),
        '1' => Some(1),
        '2' => Some(2),
        '3' => Some(3),
        '4' => Some(4),
        '5' => Some(5),
        '6' => Some(6),
        '7' => Some(7),
        '8' => Some(8),
        '9' => Some(9),
        _ => {
            proof {
                assert(!is_digit(c)) by {
                    if is_digit(c) {
                        vstd::utf8::char_u32_cast(c, c as u32);
                    }
                }
            }
            None
        },
    }
}

/// A longer digit string never has a smaller value: the value of a proper
/// prefix is at most the value of the whole.
proof fn lemma_dec_val_prefix_le(s: Seq<char>, i: int)
    requires
        0 <= i <= s.len(),
    ensures
        dec_val(s.subrange(0, i)) <= dec_val(s),
    decreases s.len() - i,
{
    if i == s.len() {
        assert(s.subrange(0, i) =~= s);
    } else {
        lemma_dec_val_prefix_le(s, i + 1);
        let t = s.subrange(0, i + 1);
        assert(t.drop_last() =~= s.subrange(0, i));
        assert(dec_val(t) == dec_val(s.subrange(0, i)) * 10 + digit_val(t.last()));
    }
}

/// Reads the string as an unsigned decimal number.  Succeeds exactly on a
/// non-empty string of digits whose value fits in sixty-four bits.
pub fn parse_u64(s: &str) -> (r: Option<u64>)
    ensures
        r is Some <==> all_digits(s@) && dec_val(s@) <= u64::MAX,
        r is Some ==> r->0 == dec_val(s@),
{
    let len = s.unicode_len();
    if len == 0 {
        return None;
    }
    let mut acc: u64 = 0;
    let mut i: usize = 0;
    while i < len
        invariant
            0 < len == s@.len(),
            i <= len,
            forall|j: int| 0 <= j < i ==> is_digit(#[trigger] s@[j]),
            acc == dec_val(s@.subrange(0, i as int)),
        decreases len - i,
    {
        let c = s.get_char(i);
        let d = match char_digit(c) {
            Some(d) => d,
            None => {
                return None;
            },
        };
        let shifted = match acc.checked_mul(10) {
            Some(x) => x,
            None => {
                proof {
                    assert(dec_val(s@.subrange(0, i + 1)) > u64::MAX) by {
                        assert(s@.subrange(0, i + 1).drop_last() =~= s@.subrange(0, i as int));
                    }
                    lemma_dec_val_prefix_le(s@, i + 1);
                }
                return None;
            },
        };
        let next = match shifted.checked_add(d) {
            Some(x) => x,
            None => {
                proof {
                    assert(dec_val(s@.subrange(0, i + 1)) > u64::MAX) by {
                        assert(s@.subrange(0, i + 1).drop_last() =~= s@.subrange(0, i as int));
                    }
                    lemma_dec_val_prefix_le(s@, i + 1);
                }
                return None;
            },
        };
        proof {
            assert(s@.subrange(0, i + 1).drop_last() =~= s@.subrange(0, i as int));
        }
        acc = next;
        i += 1;
    }
    proof {
        assert(s@.subrange(0, len as int) =~= s@);
    }
    Some(acc)
}

/// The parts written in order with a single space between consecutive
/// parts.  This is the inverse of splitting on spaces.
pub open spec fn join_spaces(parts: Seq<Seq<char>>) -> Seq<char>
    decreases parts.len(),
{
    if parts.len() == 0 {
        Seq::empty()
    } else if parts.len() == 1 {
        parts[0]
    } else {
        parts[0] + seq![' '] + join_spaces(parts.drop_first())
    }
}

proof fn lemma_join_spaces_push(parts: Seq<Seq<char>>, q: Seq<char>)
    ensures
        parts.len() == 0 ==> join_spaces(parts.push(q)) == q,
        parts.len() > 0 ==> join_spaces(parts.push(q)) == join_spaces(parts) + seq![' '] + q,
    decreases parts.len(),
{
    if parts.len() == 0 {
        assert(join_spaces(parts.push(q)) == parts.push(q)[0]);
        assert(parts.push(q)[0] == q);
    } else {
        assert(parts.push(q).drop_first() =~= parts.drop_first().push(q));
        lemma_join_spaces_push(parts.drop_first(), q);
        if parts.len() == 1 {
            assert(join_spaces(parts.push(q)) == parts[0] + seq![' '] + q);
            assert(join_spaces(parts) == parts[0]);
        } else {
            assert(join_spaces(parts.push(q)) == parts[0] + seq![' '] + (join_spaces(
                parts.drop_first(),
            ) + seq![' '] + q));
            assert(parts[0] + seq![' '] + (join_spaces(parts.drop_first()) + seq![' '] + q) =~= (
            parts[0] + seq![' '] + join_spaces(parts.drop_first())) + seq![' '] + q);
        }
    }
}

/// The position of the first space, or the length of the string when it
/// holds none.
pub open spec fn first_space(s: Seq<char>) -> nat
    decreases s.len(),
{
    if s.len() == 0 {
        0
    } else if s[0] == ' ' {
        0
    } else {
        1 + first_space(s.drop_first())
    }
}

pub proof fn lemma_first_space_bounds(s: Seq<char>)
    ensures
        first_space(s) <= s.len(),
        forall|j: int| 0 <= j < first_space(s) ==> s[j] != ' ',
        first_space(s) < s.len() ==> s[first_space(s) as int] == ' ',
    decreases s.len(),
{
    if s.len() > 0 && s[0] != ' ' {
        lemma_first_space_bounds(s.drop_first());
        assert forall|j: int| 0 <= j < first_space(s) implies s[j] != ' ' by {
            if j > 0 {
                assert(s[j] == s.drop_first()[j - 1]);
            }
        }
    }
}

proof fn lemma_first_space_at(s: Seq<char>, k: int)
    requires
        0 <= k <= s.len(),
        forall|j: int| 0 <= j < k ==> s[j] != ' ',
        k < s.len() ==> s[k] == ' ',
    ensures
        first_space(s) == k,
    decreases k,
{
    if s.len() == 0 || k == 0 {
    } else {
        lemma_first_space_at(s.drop_first(), k - 1);
    }
}

/// The parts of the string between its spaces, in order: the unique
/// sequence of space-free parts whose space-joined concatenation is the
/// string itself.
pub open spec fn split_spaces_spec(s: Seq<char>) -> Seq<Seq<char>>
    decreases s.len(),
{
    let k = first_space(s);
    if k >= s.len() {
        seq![s]
    } else {
        seq![s.subrange(0, k as int)] + split_spaces_spec(
            s.subrange(k as int + 1, s.len() as int),
        )
    }
}

/// Splitting on spaces is pinned down by joining with spaces: space-free
/// parts that join back to the string are the string's split.
pub proof fn lemma_split_spaces_unique(parts: Seq<Seq<char>>, s: Seq<char>)
    requires
        parts.len() >= 1,
        join_spaces(parts) == s,
        forall|i: int, j: int|
            0 <= i < parts.len() && 0 <= j < parts[i].len() ==> #[trigger] parts[i][j] != ' ',
    ensures
        split_spaces_spec(s) == parts,
    decreases parts.len(),
{
    lemma_first_space_bounds(s);
    if parts.len() == 1 {
        assert(s == parts[0]);
        assert(forall|j: int| 0 <= j < s.len() ==> s[j] != ' ');
        lemma_first_space_at(s, s.len() as int);
        assert(split_spaces_spec(s) =~= seq![s]);
        assert(seq![s] =~= parts);
    } else {
        let head = parts[0];
        let rest = parts.drop_first();
        let tail = join_spaces(rest);
        assert(s == head + seq![' '] + tail);
        assert forall|j: int| 0 <= j < head.len() implies s[j] != ' ' by {
            assert(s[j] == head[j]);
        }
        assert(s[head.len() as int] == ' ');
        lemma_first_space_at(s, head.len() as int);
        assert(first_space(s) == head.len());
        assert(s.subrange(0, head.len() as int) =~= head);
        assert(s.subrange(head.len() as int + 1, s.len() as int) =~= tail);
        assert forall|i: int, j: int|
            0 <= i < rest.len() && 0 <= j < rest[i].len() implies #[trigger] rest[i][j]
            != ' ' by {
            assert(rest[i] == parts[i + 1]);
        }
        lemma_split_spaces_unique(rest, tail);
        assert(split_spaces_spec(s) =~= seq![head] + split_spaces_spec(tail));
        assert(seq![head] + rest =~= parts);
    }
}

/// Splits the string at every single space, as an options string handed
/// to an external tool is split into separate arguments.  Consecutive
/// spaces and an empty input yield empty parts: no quoting or collapsing
/// is applied to the shell-style options string.
pub fn split_spaces(s: &str) -> (r: Vec<String>)
    ensures
        r@.len() >= 1,
        join_spaces(r.deep_view()) == s@,
        forall|i: int, j: int|
            0 <= i < r@.len() && 0 <= j < r@[i]@.len() ==> #[trigger] r@[i]@[j] != ' ',
        r.deep_view() == split_spaces_spec(s@),
{
    let len = s.unicode_len();
    let mut parts: Vec<String> = Vec::new();
    let mut cur = String::new();
    let mut i: usize = 0;
    while i < len
        invariant
            i <= len,
            len == s@.len(),
            join_spaces(parts.deep_view().push(cur@)) == s@.subrange(0, i as int),
            forall|k: int, j: int|
                0 <= k < parts@.len() && 0 <= j < parts@[k]@.len() ==> #[trigger] parts@[k]@[j]
                    != ' ',
            forall|j: int| 0 <= j < cur@.len() ==> cur@[j] != ' ',
        decreases len - i,
    {
        let c = s.get_char(i);
        proof {
            lemma_join_spaces_push(parts.deep_view(), cur@);
        }
        if c == ' ' {
            let ghost old_parts = parts.deep_view();
            let ghost old_cur = cur@;
            parts.push(cur);
            cur = String::new();
            proof {
                assert(parts.deep_view() =~= old_parts.push(old_cur));
                lemma_join_spaces_push(old_parts.push(old_cur), cur@);
                assert(join_spaces(old_parts.push(old_cur).push(cur@)) == join_spaces(
                    old_parts.push(old_cur),
                ) + seq![' '] + Seq::<char>::empty());
                assert(join_spaces(old_parts.push(old_cur)) + seq![' ']
                    + Seq::<char>::empty() =~= join_spaces(old_parts.push(old_cur)) + seq![' ']);
                assert(s@.subrange(0, i as int) + seq![s@[i as int]] =~= s@.subrange(
                    0,
                    i + 1 as int,
                ));
            }
        } else {
            let ghost old_parts = parts.deep_view();
            let ghost old_cur = cur@;
            push_char(&mut cur, c);
            proof {
                lemma_join_spaces_push(old_parts, old_cur.push(c));
                if old_parts.len() == 0 {
                    assert(join_spaces(old_parts.push(old_cur.push(c))) == old_cur.push(c));
                    assert(old_cur.push(c) =~= old_cur + seq![c]);
                } else {
                    assert(join_spaces(old_parts.push(old_cur.push(c))) == join_spaces(old_parts)
                        + seq![' '] + old_cur.push(c));
                    assert(join_spaces(old_parts) + seq![' '] + old_cur.push(c) =~= (join_spaces(
                        old_parts,
                    ) + seq![' '] + old_cur) + seq![c]);
                }
                assert(s@.subrange(0, i as int) + seq![s@[i as int]] =~= s@.subrange(
                    0,
                    i + 1 as int,
                ));
            }
        }
        i += 1;
    }
    proof {
        assert(s@.subrange(0, len as int) =~= s@);
        lemma_join_spaces_push(parts.deep_view(), cur@);
    }
    let ghost old_parts = parts.deep_view();
    let ghost old_cur = cur@;
    parts.push(cur);
    proof {
        assert(parts.deep_view() =~= old_parts.push(old_cur));
        assert forall|i: int, j: int|
            0 <= i < parts.deep_view().len() && 0 <= j < parts.deep_view()[i].len()
            implies #[trigger] parts.deep_view()[i][j] != ' ' by {
            assert(parts.deep_view()[i] == parts@[i]@);
        }
        lemma_split_spaces_unique(parts.deep_view(), s@);
    }
    parts
}

/// Lexicographic order on character sequences, comparing by Unicode scalar
/// value.  This is the order the merge stage imposes on its inputs.
pub open spec fn lex_leq(a: Seq<char>, b: Seq<char>) -> bool
    decreases a.len(),
{
    if a.len() == 0 {
        true
    } else if b.len() == 0 {
        false
    } else if a[0] != b[0] {
        (a[0] as u32) < (b[0] as u32)
    } else {
        lex_leq(a.drop_first(), b.drop_first())
    }
}

/// The lexicographic order is total: of any two strings, one is at most
/// the other.
pub proof fn lemma_lex_total(a: Seq<char>, b: Seq<char>)
    ensures
        lex_leq(a, b) || lex_leq(b, a),
    decreases a.len(),
{
    if a.len() == 0 || b.len() == 0 {
    } else if a[0] != b[0] {
        vstd::utf8::char_u32_cast(a[0], a[0] as u32);
        vstd::utf8::char_u32_cast(b[0], b[0] as u32);
        assert(a[0] as u32 != b[0] as u32) by {
            if a[0] as u32 == b[0] as u32 {
                assert((a[0] as u32) as char == (b[0] as u32) as char);
            }
        }
    } else {
        lemma_lex_total(a.drop_first(), b.drop_first());
    }
}

/// The lexicographic order is transitive.
pub proof fn lemma_lex_trans(a: Seq<char>, b: Seq<char>, c: Seq<char>)
    requires
        lex_leq(a, b),
        lex_leq(b, c),
    ensures
        lex_leq(a, c),
    decreases a.len(),
{
    if a.len() == 0 {
    } else {
        if a[0] == b[0] && b[0] == c[0] {
            lemma_lex_trans(a.drop_first(), b.drop_first(), c.drop_first());
        } else {
            vstd::utf8::char_u32_cast(a[0], a[0] as u32);
            vstd::utf8::char_u32_cast(b[0], b[0] as u32);
            vstd::utf8::char_u32_cast(c[0], c[0] as u32);
        }
    }
}

/// When two strings agree on their first `i` characters, their order is
/// decided by what follows.
proof fn lemma_lex_skip(a: Seq<char>, b: Seq<char>, i: int)
    requires
        0 <= i <= a.len(),
        i <= b.len(),
        forall|j: int| 0 <= j < i ==> a[j] == b[j],
    ensures
        lex_leq(a, b) == lex_leq(a.skip(i), b.skip(i)),
    decreases i,
{
    if i > 0 {
        lemma_lex_skip(a, b, i - 1);
        assert(a.skip(i - 1).drop_first() =~= a.skip(i));
        assert(b.skip(i - 1).drop_first() =~= b.skip(i));
        assert(a.skip(i - 1)[0] == a[i - 1]);
        assert(b.skip(i - 1)[0] == b[i - 1]);
    } else {
        assert(a.skip(0) =~= a);
        assert(b.skip(0) =~= b);
    }
}

/// Whether `a` is at most `b` in lexicographic order.
pub fn str_lex_leq(a: &str, b: &str) -> (r: bool)
    ensures
        r == lex_leq(a@, b@),
{
    let al = a.unicode_len();
    let bl = b.unicode_len();
    let n = if al < bl {
        al
    } else {
        bl
    };
    let mut i: usize = 0;
    while i < n
        invariant
            i <= n,
            al == a@.len(),
            bl == b@.len(),
            n == if al < bl {
                al
            } else {
                bl
            },
            forall|j: int| 0 <= j < i ==> a@[j] == b@[j],
        decreases n - i,
    {
        let ca = a.get_char(i);
        let cb = b.get_char(i);
        if ca != cb {
            proof {
                lemma_lex_skip(a@, b@, i as int);
                assert(a@.skip(i as int)[0] == a@[i as int]);
                assert(b@.skip(i as int)[0] == b@[i as int]);
            }
            return (ca as u32) < (cb as u32);
        }
        i += 1;
    }
    proof {
        lemma_lex_skip(a@, b@, n as int);
        if al <= bl {
            assert(a@.skip(n as int).len() == 0);
        } else {
            assert(a@.skip(n as int).len() > 0);
            assert(b@.skip(n as int).len() == 0);
        }
    }
    al <= bl
}

/// Sorts the strings into lexicographic order.  The result holds exactly
/// the given strings, by content, and is sorted.
pub fn sort_strings(v: Vec<String>) -> (r: Vec<String>)
    ensures
        r.deep_view().to_multiset() == v.deep_view().to_multiset(),
        r@.len() == v@.len(),
        forall|i: int, j: int| 0 <= i < j < r@.len() ==> lex_leq(r@[i]@, r@[j]@),
{
    broadcast use vstd::seq_lib::group_to_multiset_ensures;

    let ghost orig = v.deep_view();
    let mut src = v;
    let mut out: Vec<String> = Vec::new();
    while src.len() > 0
        invariant
            out.deep_view().to_multiset().add(src.deep_view().to_multiset())
                =~= orig.to_multiset(),
            out@.len() + src@.len() == orig.len(),
            forall|i: int, j: int| 0 <= i < j < out@.len() ==> lex_leq(out@[i]@, out@[j]@),
            forall|i: int, j: int|
                0 <= i < out@.len() && 0 <= j < src@.len() ==> lex_leq(
                    #[trigger] out@[i]@,
                    #[trigger] src@[j]@,
                ),
        decreases src@.len(),
    {
        proof {
            lemma_lex_total(src@[0]@, src@[0]@);
        }
        let mut m: usize = 0;
        let mut k: usize = 1;
        while k < src.len()
            invariant
                m < k <= src@.len(),
                forall|j: int| 0 <= j < k ==> lex_leq(src@[m as int]@, #[trigger] src@[j]@),
            decreases src@.len() - k,
        {
            if str_lex_leq(src[k].as_str(), src[m].as_str()) {
                proof {
                    assert forall|j: int| 0 <= j < k + 1 implies lex_leq(
                        src@[k as int]@,
                        #[trigger] src@[j]@,
                    ) by {
                        if j < k {
                            lemma_lex_trans(src@[k as int]@, src@[m as int]@, src@[j]@);
                        } else {
                            lemma_lex_total(src@[k as int]@, src@[k as int]@);
                        }
                    }
                }
                m = k;
            } else {
                proof {
                    lemma_lex_total(src@[m as int]@, src@[k as int]@);
                }
            }
            k += 1;
        }
        let ghost pre = src.deep_view();
        let item = src.remove(m);
        proof {
            assert(src.deep_view() =~= pre.remove(m as int));
            pre.to_multiset_ensures();
            out.deep_view().to_multiset_ensures();
            assert(pre[m as int] == item@);
            assert(pre.contains(item@));
            assert(pre.to_multiset().count(item@) > 0);
            assert(pre.remove(m as int).to_multiset() =~= pre.to_multiset().remove(item@));
            assert(pre.to_multiset() =~= pre.remove(m as int).to_multiset().insert(item@));
            assert(out.deep_view().push(item@).to_multiset() =~= out.deep_view().to_multiset()
                .insert(item@));
        }
        let ghost old_out = out.deep_view();
        out.push(item);
        proof {
            assert(out.deep_view() =~= old_out.push(item@));
            assert(out.deep_view().to_multiset().add(src.deep_view().to_multiset())
                =~= orig.to_multiset());
        }
    }
    proof {
        assert(src.deep_view().to_multiset() =~= Multiset::<Seq<char>>::empty());
        assert(out.deep_view().to_multiset().add(Multiset::<Seq<char>>::empty()) =~= out
            .deep_view()
            .to_multiset());
    }
    out
}

} // verus!
