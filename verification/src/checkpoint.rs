//! The checkpoint store's filename codec: each persisted page is named
//! `<step>_<cursor>.json`, with the step zero-padded to at least three
//! digits and the literal `first_cursor` standing in for the absent cursor
//! of step 0. Recovery parses these names back and resumes from the
//! largest (step, cursor) pair.

use vstd::prelude::*;

use crate::digits::{
    all_digits, decimal_of, digit_char, digit_val, digits_to_nat, format_decimal, is_digit_char,
    lemma_digit_char_val, lemma_digits_prefix_le, lemma_digits_take_succ,
};
use crate::util::{task_dir_label, TaskType};

verus! {

/// The filename extension of every checkpoint file.
pub open spec fn json_suffix() -> Seq<char> {
    seq!['.', 'j', 's', 'o', 'n']
}

/// The sentinel written in place of a cursor for the first page.
pub open spec fn first_cursor_label() -> Seq<char> {
    seq!['f', 'i', 'r', 's', 't', '_', 'c', 'u', 'r', 's', 'o', 'r']
}

/// The cursor text a page is filed under: the cursor the page was
/// requested with, or the sentinel when there was none.
pub open spec fn cursor_label(cursor: Option<String>) -> Seq<char> {
    match cursor {
        Some(c) => c@,
        None => first_cursor_label(),
    }
}

/// The step index as it appears in a filename: its decimal representation,
/// zero-padded to at least three digits.
pub open spec fn step_label(n: nat) -> Seq<char> {
    if n < 10 {
        seq!['0', '0'] + decimal_of(n)
    } else if n < 100 {
        seq!['0'] + decimal_of(n)
    } else {
        decimal_of(n)
    }
}

/// The checkpoint filename for a step index and a cursor text.
pub open spec fn checkpoint_name(step: nat, cursor: Seq<char>) -> Seq<char> {
    step_label(step) + seq!['_'] + cursor + json_suffix()
}

/// How many leading characters of a sequence are decimal digits.
pub open spec fn digit_prefix_len(s: Seq<char>) -> nat
    decreases s.len(),
{
    if s.len() == 0 || !is_digit_char(s[0]) {
        0
    } else {
        1 + digit_prefix_len(s.drop_first())
    }
}

/// A name with the checkpoint extension.
pub open spec fn is_json_name(s: Seq<char>) -> bool {
    s.len() >= 5 && s.subrange(s.len() - 5, s.len() as int) == json_suffix()
}

/// What a filename parses to: the step index and cursor text it encodes,
/// or nothing when it is not of the exact shape the store writes. The
/// digit run must be at least three long (zero-padding) and must not carry
/// padding beyond three digits, so every parsed name is one the store
/// could have written.
pub open spec fn spec_parse_name(s: Seq<char>) -> Option<(nat, Seq<char>)> {
    let k = digit_prefix_len(s) as int;
    if is_json_name(s) && 3 <= k && k + 6 <= s.len() && s[k] == '_' && (k == 3 || s[0] != '0') {
        Some((digits_to_nat(s.take(k)), s.subrange(k + 1, s.len() - 5)))
    } else {
        None
    }
}

/// The decimal representation is made of digits, is never empty, and has
/// no leading zero beyond the number zero itself.
pub proof fn lemma_decimal_wf(n: nat)
    ensures
        all_digits(decimal_of(n)),
        decimal_of(n).len() >= 1,
        n > 0 ==> decimal_of(n)[0] != '0',
        n < 10 ==> decimal_of(n).len() == 1,
        10 <= n < 100 ==> decimal_of(n).len() == 2,
        n >= 100 ==> decimal_of(n).len() >= 3,
    decreases n,
{
    if n < 10 {
        lemma_digit_char_val(digit_char(n));
    } else {
        lemma_decimal_wf(n / 10);
        lemma_digit_char_val(digit_char(n % 10));
        assert(decimal_of(n) == decimal_of(n / 10).push(digit_char(n % 10)));
        assert(decimal_of(n)[0] == decimal_of(n / 10)[0]);
        assert(forall|i: int|
            0 <= i < decimal_of(n).len() ==> is_digit_char(#[trigger] decimal_of(n)[i]));
    }
}

/// Reading the decimal representation back gives the number.
pub proof fn lemma_decimal_value(n: nat)
    ensures
        digits_to_nat(decimal_of(n)) == n,
    decreases n,
{
    if n < 10 {
        lemma_digit_char_val(digit_char(n));
        let d = decimal_of(n);
        assert(d == seq![digit_char(n)]);
        assert(d.last() == digit_char(n));
        assert(d.drop_last() =~= Seq::<char>::empty());
        assert(digits_to_nat(Seq::<char>::empty()) == 0);
        assert(digits_to_nat(d) == digits_to_nat(d.drop_last()) * 10 + digit_val(d.last()));
    } else {
        lemma_decimal_value(n / 10);
        lemma_digit_char_val(digit_char(n % 10));
        let d = decimal_of(n);
        assert(d == decimal_of(n / 10).push(digit_char(n % 10)));
        assert(d.drop_last() =~= decimal_of(n / 10));
        assert(d.last() == digit_char(n % 10));
        assert(digits_to_nat(d) == digits_to_nat(decimal_of(n / 10)) * 10 + digit_val(
            digit_char(n % 10),
        ));
        assert(n == (n / 10) * 10 + n % 10) by (nonlinear_arith);
    }
}

/// A zero in front of a digit run does not change its value.
pub proof fn lemma_zero_prefix_value(s: Seq<char>)
    ensures
        digits_to_nat(seq!['0'] + s) == digits_to_nat(s),
    decreases s.len(),
{
    let z = seq!['0'] + s;
    if s.len() == 0 {
        assert(z =~= seq!['0']);
        assert(z.last() == '0');
        assert(z.drop_last() =~= Seq::<char>::empty());
        assert(digits_to_nat(Seq::<char>::empty()) == 0);
        assert(digits_to_nat(z) == digits_to_nat(z.drop_last()) * 10 + digit_val(z.last()));
        assert(digit_val('0') == 0);
    } else {
        lemma_zero_prefix_value(s.drop_last());
        assert(z.drop_last() =~= seq!['0'] + s.drop_last());
        assert(z.last() == s.last());
        assert(digits_to_nat(z) == digits_to_nat(z.drop_last()) * 10 + digit_val(z.last()));
        assert(digits_to_nat(s) == digits_to_nat(s.drop_last()) * 10 + digit_val(s.last()));
    }
}

/// The step label is at least three digits, is all digits, carries a
/// leading zero only within the three-digit padding, and reads back as
/// the step.
pub proof fn lemma_step_label_wf(n: nat)
    ensures
        all_digits(step_label(n)),
        step_label(n).len() >= 3,
        step_label(n).len() == 3 || step_label(n)[0] != '0',
        digits_to_nat(step_label(n)) == n,
{
    lemma_decimal_wf(n);
    lemma_decimal_value(n);
    if n < 10 {
        assert(step_label(n) =~= seq!['0'] + (seq!['0'] + decimal_of(n)));
        lemma_zero_prefix_value(seq!['0'] + decimal_of(n));
        lemma_zero_prefix_value(decimal_of(n));
        assert(digit_val('0') == 0);
        assert(forall|i: int|
            0 <= i < step_label(n).len() ==> is_digit_char(#[trigger] step_label(n)[i]));
    } else if n < 100 {
        lemma_zero_prefix_value(decimal_of(n));
        assert(forall|i: int|
            0 <= i < step_label(n).len() ==> is_digit_char(#[trigger] step_label(n)[i]));
    }
}

/// The digit prefix of a digit run followed by a non-digit is exactly the
/// run.
pub proof fn lemma_digit_prefix_of_concat(d: Seq<char>, rest: Seq<char>)
    requires
        all_digits(d),
        rest.len() > 0,
        !is_digit_char(rest[0]),
    ensures
        digit_prefix_len(d + rest) == d.len(),
    decreases d.len(),
{
    if d.len() == 0 {
        assert(d + rest =~= rest);
    } else {
        assert((d + rest)[0] == d[0]);
        assert((d + rest).drop_first() =~= d.drop_first() + rest);
        assert(all_digits(d.drop_first())) by {
            assert(forall|i: int|
                0 <= i < d.drop_first().len() ==> #[trigger] d.drop_first()[i] == d[i + 1]);
        }
        lemma_digit_prefix_of_concat(d.drop_first(), rest);
    }
}

/// Parsing inverts naming: the store can always resume from the names it
/// writes, whatever the step and cursor were.
pub proof fn lemma_checkpoint_round_trip(step: nat, cursor: Seq<char>)
    ensures
        spec_parse_name(checkpoint_name(step, cursor)) == Some((step, cursor)),
{
    let sl = step_label(step);
    let s = checkpoint_name(step, cursor);
    let rest = seq!['_'] + cursor + json_suffix();
    lemma_step_label_wf(step);
    assert(s =~= sl + rest);
    assert(rest[0] == '_');
    lemma_digit_prefix_of_concat(sl, rest);
    let k = sl.len() as int;
    assert(digit_prefix_len(s) == sl.len());
    assert(s.len() == sl.len() + 1 + cursor.len() + 5);
    assert(s.subrange(s.len() - 5, s.len() as int) =~= json_suffix());
    assert(s[k] == '_');
    assert(s.take(k) =~= sl);
    assert(s.subrange(k + 1, s.len() - 5) =~= cursor);
    assert(step_label(step).len() == 3 || s[0] != '0');
}

/// Two distinct (step, cursor) pairs never share a filename.
pub proof fn lemma_checkpoint_name_injective(s1: nat, c1: Seq<char>, s2: nat, c2: Seq<char>)
    requires
        checkpoint_name(s1, c1) == checkpoint_name(s2, c2),
    ensures
        s1 == s2 && c1 == c2,
{
    lemma_checkpoint_round_trip(s1, c1);
    lemma_checkpoint_round_trip(s2, c2);
}

/// The digit prefix length is the position of the first non-digit.
pub proof fn lemma_digit_prefix_len_is_first_nondigit(s: Seq<char>, k: int)
    requires
        0 <= k <= s.len(),
        forall|i: int| 0 <= i < k ==> is_digit_char(#[trigger] s[i]),
        k == s.len() || !is_digit_char(s[k]),
    ensures
        digit_prefix_len(s) == k,
    decreases s.len(),
{
    if s.len() == 0 {
    } else if k == 0 {
    } else {
        assert(is_digit_char(s[0]));
        let t = s.drop_first();
        assert(forall|i: int| 0 <= i < k - 1 ==> #[trigger] t[i] == s[i + 1]);
        assert(k - 1 == t.len() || !is_digit_char(t[k - 1]));
        lemma_digit_prefix_len_is_first_nondigit(t, k - 1);
    }
}

/// Parse a checkpoint filename back into its step index and cursor text.
/// Only names of the exact shape the store writes parse; a parsed step
/// larger than `u32::MAX` is treated as malformed.
pub fn parse_checkpoint_name(name: &str) -> (r: Option<(u32, String)>)
    ensures
        match r {
            Some(sc) => spec_parse_name(name@) == Some((sc.0 as nat, sc.1@)),
            None => match spec_parse_name(name@) {
                Some(q) => q.0 > u32::MAX,
                None => true,
            },
        },
{
    let n = name.unicode_len();
    if n < 9 {
        return None;
    }
    // the extension
    if !(name.get_char(n - 5) == '.' && name.get_char(n - 4) == 'j' && name.get_char(n - 3) == 's'
        && name.get_char(n - 2) == 'o' && name.get_char(n - 1) == 'n') {
        proof {
            assert(!is_json_name(name@)) by {
                if is_json_name(name@) {
                    assert(name@.subrange(n - 5, n as int)[0] == name@[n - 5]);
                    assert(name@.subrange(n - 5, n as int)[1] == name@[n - 4]);
                    assert(name@.subrange(n - 5, n as int)[2] == name@[n - 3]);
                    assert(name@.subrange(n - 5, n as int)[3] == name@[n - 2]);
                    assert(name@.subrange(n - 5, n as int)[4] == name@[n - 1]);
                }
            }
        }
        return None;
    }
    proof {
        assert(name@.subrange(n - 5, n as int) =~= json_suffix());
    }
    // the digit run
    let mut k: usize = 0;
    loop
        invariant
            0 <= k <= n,
            n == name@.len(),
            9 <= n,
            forall|i: int| 0 <= i < k ==> is_digit_char(#[trigger] name@[i]),
        ensures
            0 <= k <= n,
            forall|i: int| 0 <= i < k ==> is_digit_char(#[trigger] name@[i]),
            k == n || !is_digit_char(name@[k as int]),
        decreases n - k,
    {
        if k >= n {
            break ;
        }
        let c = name.get_char(k);
        let u = c as u32;
        if u < 48 || u > 57 {
            break ;
        }
        k = k + 1;
    }
    proof {
        lemma_digit_prefix_len_is_first_nondigit(name@, k as int);
    }
    if k < 3 || k > n - 6 {
        return None;
    }
    if name.get_char(k) != '_' {
        return None;
    }
    if k > 3 && name.get_char(0) == '0' {
        return None;
    }
    // the step value
    let mut value: u32 = 0;
    let mut i: usize = 0;
    while i < k
        invariant
            0 <= i <= k <= n,
            n == name@.len(),
            forall|j: int| 0 <= j < k ==> is_digit_char(#[trigger] name@[j]),
            value == digits_to_nat(name@.take(i as int)),
            digit_prefix_len(name@) == k,
            is_json_name(name@),
            3 <= k,
            k + 6 <= n,
            name@[k as int] == '_',
            k == 3 || name@[0] != '0',
        decreases k - i,
    {
        let c = name.get_char(i);
        let u = c as u32;
        assert(48 <= u <= 57);
        let d = u - 48;
        assert(d == digit_val(name@[i as int]));
        if value > (u32::MAX - d) / 10 {
            proof {
                lemma_digits_take_succ(name@, i as int);
                assert(value * 10 + d > u32::MAX) by (nonlinear_arith)
                    requires
                        value > (u32::MAX - d) / 10,
                        0 <= d < 10,
                        0 <= value,
                ;
                lemma_digits_prefix_le(name@, i + 1, k as int);
            }
            return None;
        }
        proof {
            assert(value * 10 + d <= u32::MAX) by (nonlinear_arith)
                requires
                    value <= (u32::MAX - d) / 10,
                    0 <= d < 10,
                    0 <= value,
            ;
            lemma_digits_take_succ(name@, i as int);
        }
        value = value * 10 + d;
        i = i + 1;
    }
    // the cursor text
    let cursor = name.substring_char(k + 1, n - 5).to_owned();
    proof {
        assert(cursor@ =~= name@.subrange(k + 1, n - 5));
    }
    Some((value, cursor))
}

/// Render the step index as it appears in a filename.
fn format_step_label(step: u32) -> (r: String)
    ensures
        r@ =~= step_label(step as nat),
{
    proof {
        reveal_strlit("00");
        reveal_strlit("0");
        reveal_strlit("");
    }
    let mut s = String::new();
    if step < 10 {
        s.append("00");
        assert(s@ =~= seq!['0', '0']);
    } else if step < 100 {
        s.append("0");
        assert(s@ =~= seq!['0']);
    }
    let d = format_decimal(step);
    s.append(d.as_str());
    s
}

/// The filename a page is persisted under: the zero-padded step index, an
/// underscore, the cursor the page was requested with (or the sentinel
/// for the first page), and the extension.
pub fn format_checkpoint_name(step: u32, cursor: &Option<String>) -> (r: String)
    ensures
        r@ =~= checkpoint_name(step as nat, cursor_label(*cursor)),
{
    proof {
        reveal_strlit("_");
        reveal_strlit("first_cursor");
        reveal_strlit(".json");
    }
    let mut s = format_step_label(step);
    s.append("_");
    match cursor {
        Some(c) => s.append(c.as_str()),
        None => s.append("first_cursor"),
    }
    s.append(".json");
    assert(("first_cursor")@ =~= first_cursor_label());
    assert((".json")@ =~= json_suffix());
    assert(("_")@ =~= seq!['_']);
    s
}

/// Lexicographic order on character sequences, by code point.
pub open spec fn lex_le(a: Seq<char>, b: Seq<char>) -> bool
    decreases a.len(),
{
    if a.len() == 0 {
        true
    } else if b.len() == 0 {
        false
    } else if (a[0] as u32) < (b[0] as u32) {
        true
    } else if a[0] == b[0] {
        lex_le(a.drop_first(), b.drop_first())
    } else {
        false
    }
}

/// The order is reflexive.
pub proof fn lemma_lex_le_refl(a: Seq<char>)
    ensures
        lex_le(a, a),
    decreases a.len(),
{
    if a.len() > 0 {
        lemma_lex_le_refl(a.drop_first());
    }
}

/// Any two character sequences are ordered.
pub proof fn lemma_lex_le_total(a: Seq<char>, b: Seq<char>)
    ensures
        lex_le(a, b) || lex_le(b, a),
    decreases a.len(),
{
    if a.len() == 0 {
    } else if b.len() == 0 {
    } else if (a[0] as u32) < (b[0] as u32) {
    } else if a[0] == b[0] {
        lemma_lex_le_total(a.drop_first(), b.drop_first());
    } else {
        assert((b[0] as u32) != (a[0] as u32)) by {
            vstd::utf8::char_u32_cast(a[0], a[0] as u32);
            vstd::utf8::char_u32_cast(b[0], b[0] as u32);
        }
    }
}

/// The order is transitive.
pub proof fn lemma_lex_le_trans(a: Seq<char>, b: Seq<char>, c: Seq<char>)
    requires
        lex_le(a, b),
        lex_le(b, c),
    ensures
        lex_le(a, c),
    decreases a.len(),
{
    if a.len() > 0 && b.len() > 0 && c.len() > 0 && a[0] == b[0] && b[0] == c[0] {
        lemma_lex_le_trans(a.drop_first(), b.drop_first(), c.drop_first());
    }
}

/// The order is antisymmetric.
pub proof fn lemma_lex_le_antisym(a: Seq<char>, b: Seq<char>)
    requires
        lex_le(a, b),
        lex_le(b, a),
    ensures
        a == b,
    decreases a.len(),
{
    if a.len() > 0 && b.len() > 0 && a[0] == b[0] {
        lemma_lex_le_antisym(a.drop_first(), b.drop_first());
        assert(a =~= seq![a[0]] + a.drop_first());
        assert(b =~= seq![b[0]] + b.drop_first());
    }
}

/// The recovery order on parsed checkpoints: by step index, then by the
/// cursor text.
pub open spec fn key_le(s1: nat, c1: Seq<char>, s2: nat, c2: Seq<char>) -> bool {
    s1 < s2 || (s1 == s2 && lex_le(c1, c2))
}

/// Compare two character sequences in the lexicographic order.
fn lex_le_str(a: &str, b: &str) -> (r: bool)
    ensures
        r == lex_le(a@, b@),
{
    let na = a.unicode_len();
    let nb = b.unicode_len();
    let mut i: usize = 0;
    proof {
        assert(a@.skip(0) =~= a@);
        assert(b@.skip(0) =~= b@);
    }
    loop
        invariant
            0 <= i <= na,
            0 <= i <= nb,
            na == a@.len(),
            nb == b@.len(),
            lex_le(a@, b@) == lex_le(a@.skip(i as int), b@.skip(i as int)),
        decreases na - i,
    {
        if i >= na {
            assert(a@.skip(i as int).len() == 0);
            return true;
        }
        if i >= nb {
            assert(b@.skip(i as int).len() == 0);
            assert(a@.skip(i as int).len() > 0);
            return false;
        }
        let ca = a.get_char(i);
        let cb = b.get_char(i);
        proof {
            assert(a@.skip(i as int)[0] == a@[i as int]);
            assert(b@.skip(i as int)[0] == b@[i as int]);
        }
        let ua = ca as u32;
        let ub = cb as u32;
        if ua < ub {
            return true;
        }
        if ua > ub {
            return false;
        }
        proof {
            vstd::utf8::char_u32_cast(ca, ua);
            vstd::utf8::char_u32_cast(cb, ub);
            assert(ca == cb);
            assert(a@.skip(i as int).drop_first() =~= a@.skip(i as int + 1));
            assert(b@.skip(i as int).drop_first() =~= b@.skip(i as int + 1));
        }
        i = i + 1;
    }
}

/// Compare two parsed checkpoints in the recovery order.
fn key_le_parsed(s1: u32, c1: &str, s2: u32, c2: &str) -> (r: bool)
    ensures
        r == key_le(s1 as nat, c1@, s2 as nat, c2@),
{
    if s1 < s2 {
        true
    } else if s1 > s2 {
        false
    } else {
        lex_le_str(c1, c2)
    }
}

/// Does a filename carry the checkpoint extension?
fn ends_with_json(name: &str) -> (r: bool)
    ensures
        r == is_json_name(name@),
{
    let n = name.unicode_len();
    if n < 5 {
        return false;
    }
    let r = name.get_char(n - 5) == '.' && name.get_char(n - 4) == 'j' && name.get_char(n - 3)
        == 's' && name.get_char(n - 2) == 'o' && name.get_char(n - 1) == 'n';
    proof {
        let suf = name@.subrange(n - 5, n as int);
        assert(suf[0] == name@[n - 5]);
        assert(suf[1] == name@[n - 4]);
        assert(suf[2] == name@[n - 3]);
        assert(suf[3] == name@[n - 2]);
        assert(suf[4] == name@[n - 1]);
        if r {
            assert(suf =~= json_suffix());
        }
    }
    r
}

/// The views of a list of filenames.
pub open spec fn names_view(ns: Seq<String>) -> Seq<Seq<char>> {
    ns.map_values(|s: String| s@)
}

/// The resumable state a directory listing encodes: a positive step `s`
/// with cursor text `c` such that some listed checkpoint file is named
/// `(s, c)`, every listed checkpoint file parses, and `(s, c)` is the
/// largest parsed pair in the recovery order.
pub open spec fn good_recovery(ns: Seq<Seq<char>>, s: nat, c: Seq<char>) -> bool {
    &&& 0 < s <= u32::MAX
    &&& exists|i: int|
        0 <= i < ns.len() && #[trigger] spec_parse_name(ns[i]) == Some((s, c))
    &&& forall|i: int|
        0 <= i < ns.len() && is_json_name(#[trigger] ns[i]) ==> match spec_parse_name(ns[i]) {
            Some(q) => q.0 <= u32::MAX && key_le(q.0, q.1, s, c),
            None => false,
        }
}

/// At most one resumable state exists for a given listing.
pub proof fn lemma_recovery_unique(ns: Seq<Seq<char>>, s1: nat, c1: Seq<char>, s2: nat, c2: Seq<char>)
    requires
        good_recovery(ns, s1, c1),
        good_recovery(ns, s2, c2),
    ensures
        s1 == s2 && c1 == c2,
{
    let i1 = choose|i: int| 0 <= i < ns.len() && #[trigger] spec_parse_name(ns[i]) == Some((s1, c1));
    let i2 = choose|i: int| 0 <= i < ns.len() && #[trigger] spec_parse_name(ns[i]) == Some((s2, c2));
    assert(is_json_name(ns[i1]));
    assert(is_json_name(ns[i2]));
    assert(key_le(s1, c1, s2, c2));
    assert(key_le(s2, c2, s1, c1));
    lemma_lex_le_antisym(c1, c2);
}

/// Recover the crawl position from a directory listing: among the files
/// with the checkpoint extension, the largest parsed (step, cursor) pair.
/// `None` means there is nothing to resume from: no checkpoint files, a
/// malformed checkpoint name (the crawl restarts from scratch), or a
/// largest entry at step 0, which never carries a resumable cursor.
pub fn recover(names: &Vec<String>) -> (r: Option<(u32, String)>)
    ensures
        match r {
            Some(sc) => good_recovery(names_view(names@), sc.0 as nat, sc.1@),
            None => forall|s: nat, c: Seq<char>| !#[trigger] good_recovery(names_view(names@), s, c),
        },
{
    let ghost nv = names_view(names@);
    proof {
        assert(forall|i: int| 0 <= i < names@.len() ==> #[trigger] nv[i] == names@[i]@);
    }
    let mut best_step: u32 = 0;
    let mut best_cursor: String = String::new();
    let mut have: bool = false;
    let mut idx: usize = 0;
    while idx < names.len()
        invariant
            0 <= idx <= names.len(),
            nv == names_view(names@),
            nv.len() == names@.len(),
            forall|i: int| 0 <= i < names@.len() ==> #[trigger] nv[i] == names@[i]@,
            !have ==> forall|j: int| 0 <= j < idx ==> !is_json_name(#[trigger] nv[j]),
            have ==> exists|j: int|
                0 <= j < idx && #[trigger] spec_parse_name(nv[j]) == Some(
                    (best_step as nat, best_cursor@),
                ),
            forall|j: int|
                0 <= j < idx && is_json_name(#[trigger] nv[j]) ==> match spec_parse_name(nv[j]) {
                    Some(q) => q.0 <= u32::MAX && key_le(
                        q.0,
                        q.1,
                        best_step as nat,
                        best_cursor@,
                    ),
                    None => false,
                },
        decreases names.len() - idx,
    {
        let name: &String = &names[idx];
        if ends_with_json(name.as_str()) {
            match parse_checkpoint_name(name.as_str()) {
                None => {
                    // this checkpoint file has a name the store never writes
                    proof {
                        assert forall|s: nat, c: Seq<char>| !#[trigger] good_recovery(nv, s, c) by {
                            if good_recovery(nv, s, c) {
                                assert(is_json_name(nv[idx as int]));
                            }
                        }
                    }
                    return None;
                },
                Some((s, c)) => {
                    if !have {
                        proof {
                            lemma_lex_le_refl(c@);
                        }
                        best_step = s;
                        best_cursor = c;
                        have = true;
                    } else if key_le_parsed(best_step, best_cursor.as_str(), s, c.as_str()) {
                        proof {
                            lemma_lex_le_refl(c@);
                            assert forall|j: int|
                                0 <= j < idx && is_json_name(#[trigger] nv[j]) implies match spec_parse_name(
                                nv[j],
                            ) {
                                Some(q) => q.0 <= u32::MAX && key_le(q.0, q.1, s as nat, c@),
                                None => false,
                            } by {
                                let q = spec_parse_name(nv[j])->Some_0;
                                if q.0 == best_step as nat && best_step == s {
                                    lemma_lex_le_trans(q.1, best_cursor@, c@);
                                }
                            }
                        }
                        best_step = s;
                        best_cursor = c;
                    } else {
                        proof {
                            lemma_lex_le_total(best_cursor@, c@);
                            assert(key_le(s as nat, c@, best_step as nat, best_cursor@));
                        }
                    }
                },
            }
        }
        idx = idx + 1;
    }
    if !have {
        proof {
            assert forall|s: nat, c: Seq<char>| !#[trigger] good_recovery(nv, s, c) by {
                if good_recovery(nv, s, c) {
                    let i = choose|i: int|
                        0 <= i < nv.len() && #[trigger] spec_parse_name(nv[i]) == Some((s, c));
                    assert(is_json_name(nv[i]));
                }
            }
        }
        return None;
    }
    if best_step == 0 {
        proof {
            assert forall|s: nat, c: Seq<char>| !#[trigger] good_recovery(nv, s, c) by {
                if good_recovery(nv, s, c) {
                    let i = choose|i: int|
                        0 <= i < nv.len() && #[trigger] spec_parse_name(nv[i]) == Some((s, c));
                    assert(is_json_name(nv[i]));
                    assert(key_le(s, c, best_step as nat, best_cursor@));
                }
            }
        }
        return None;
    }
    Some((best_step, best_cursor))
}

/// The relative path a page is persisted under:
/// `output/<owner>_<repo>/<task>/<filename>`.
pub open spec fn output_rel_path(
    owner: Seq<char>,
    repo: Seq<char>,
    task: TaskType,
    step: nat,
    cursor: Seq<char>,
) -> Seq<char> {
    seq!['o', 'u', 't', 'p', 'u', 't', '/'] + owner + seq!['_'] + repo + seq!['/']
        + task_dir_label(task) + seq!['/'] + checkpoint_name(step, cursor)
}

/// Build the relative output path for one persisted page.
pub fn format_output_rel_path(
    owner: &str,
    repo: &str,
    task: TaskType,
    step: u32,
    cursor: &Option<String>,
) -> (r: String)
    ensures
        r@ =~= output_rel_path(owner@, repo@, task, step as nat, cursor_label(*cursor)),
{
    proof {
        reveal_strlit("output/");
        reveal_strlit("_");
        reveal_strlit("/");
    }
    let mut s = String::new();
    s.append("output/");
    s.append(owner);
    s.append("_");
    s.append(repo);
    s.append("/");
    s.append(task.dir_name());
    s.append("/");
    let name = format_checkpoint_name(step, cursor);
    s.append(name.as_str());
    assert(("output/")@ =~= seq!['o', 'u', 't', 'p', 'u', 't', '/']);
    assert(("_")@ =~= seq!['_']);
    assert(("/")@ =~= seq!['/']);
    assert(s@ =~= output_rel_path(owner@, repo@, task, step as nat, cursor_label(*cursor)));
    s
}

} // verus!
