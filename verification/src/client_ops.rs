use vstd::prelude::*;
use vstd::string::*;

verus! {

/// The whitespace JSON allows between tokens.
pub open spec fn is_json_ws(c: char) -> bool {
    c == ' ' || c == '\t' || c == '\n' || c == '\r'
}

/// The first index at or after `i` holding no whitespace.
pub open spec fn ws_end(s: Seq<char>, i: int) -> int
    decreases s.len() - i when 0 <= i <= s.len()
{
    if i < s.len() && is_json_ws(s[i]) {
        ws_end(s, i + 1)
    } else {
        i
    }
}

/// The index after `lit`, where the text holds `lit` at `i`.
pub open spec fn lit_end(s: Seq<char>, i: int, lit: Seq<char>) -> Option<int> {
    if 0 <= i && i + lit.len() <= s.len() && s.subrange(i, i + lit.len()) == lit {
        Some(i + lit.len())
    } else {
        None
    }
}

/// A decimal digit.
pub open spec fn is_digit(c: char) -> bool {
    '0' <= c && c <= '9'
}

/// The first index at or after `i` holding no digit.
pub open spec fn digit_end(s: Seq<char>, i: int) -> int
    decreases s.len() - i when 0 <= i <= s.len()
{
    if i < s.len() && is_digit(s[i]) {
        digit_end(s, i + 1)
    } else {
        i
    }
}

/// The value of the digit run `[i, j)`.
pub open spec fn digits_value(s: Seq<char>, i: int, j: int) -> int
    decreases j - i,
{
    if j <= i {
        0
    } else {
        digits_value(s, i, j - 1) * 10 + (s[j - 1] as int - 48)
    }
}

/// The number at `i`: its value and the index after it. JSON integers have
/// no leading zero; runs beyond nineteen digits are not accepted, so every
/// accepted value fits the wire's integer fields' width.
pub open spec fn number_at(s: Seq<char>, i: int) -> Option<(int, int)> {
    let j = digit_end(s, i);
    if j == i || j - i > 19 {
        None
    } else if s[i] == '0' && j > i + 1 {
        None
    } else {
        Some((digits_value(s, i, j), j))
    }
}

/// The value after `"key" : number`, with whitespace around the colon: the
/// number and the index after it.
pub open spec fn keyval_number(s: Seq<char>, i: int, quoted_key: Seq<char>) -> Option<(int, int)> {
    match lit_end(s, i, quoted_key) {
        Some(a) => match lit_end(s, ws_end(s, a), ":"@) {
            Some(c) => number_at(s, ws_end(s, c)),
            None => None,
        },
        None => None,
    }
}

/// The subscription object's fields at `i`: its subscription id and channel
/// id — the two members in either order — and the index after the closing
/// brace.
pub open spec fn subscription_fields(s: Seq<char>, i: int) -> Option<((int, int), int)> {
    match lit_end(s, i, "{"@) {
        Some(a) => {
            let b = ws_end(s, a);
            match keyval_number(s, b, "\"id\""@) {
                Some((idv, e)) => match lit_end(s, ws_end(s, e), ","@) {
                    Some(f) => match keyval_number(s, ws_end(s, f), "\"channelId\""@) {
                        Some((chv, h)) => match lit_end(s, ws_end(s, h), "}"@) {
                            Some(end) => Some(((idv, chv), end)),
                            None => None,
                        },
                        None => None,
                    },
                    None => None,
                },
                None => match keyval_number(s, b, "\"channelId\""@) {
                    Some((chv, e)) => match lit_end(s, ws_end(s, e), ","@) {
                        Some(f) => match keyval_number(s, ws_end(s, f), "\"id\""@) {
                            Some((idv, h)) => match lit_end(s, ws_end(s, h), "}"@) {
                                Some(end) => Some(((idv, chv), end)),
                                None => None,
                            },
                            None => None,
                        },
                        None => None,
                    },
                    None => None,
                },
            }
        },
        None => None,
    }
}

/// The subscription object at `i`, accepted only when its ids fit the wire
/// widths: the subscription id a 32-bit integer, the channel id a 64-bit
/// one.
pub open spec fn subscription_at(s: Seq<char>, i: int) -> Option<((int, int), int)> {
    match subscription_fields(s, i) {
        Some(((idv, chv), end)) => if idv <= u32::MAX && chv <= u64::MAX {
            Some(((idv, chv), end))
        } else {
            None
        },
        None => None,
    }
}

/// The rest of a subscription array after one element: either the closing
/// bracket, or a comma and another element and the rest again.
pub open spec fn subs_rest(s: Seq<char>, i: int, acc: Seq<(int, int)>) -> Option<
    (Seq<(int, int)>, int),
>
    decreases s.len() - i when 0 <= i <= s.len()
{
    let w = ws_end(s, i);
    match lit_end(s, w, "]"@) {
        Some(end) => Some((acc, end)),
        None => match lit_end(s, w, ","@) {
            Some(c) => match subscription_at(s, ws_end(s, c)) {
                Some((pair, e)) => if i < e <= s.len() {
                    subs_rest(s, e, acc.push(pair))
                } else {
                    None
                },
                None => None,
            },
            None => None,
        },
    }
}

/// The subscription array at `i`: the listed subscriptions in order, and
/// the index after the closing bracket.
pub open spec fn subs_array_at(s: Seq<char>, i: int) -> Option<(Seq<(int, int)>, int)> {
    match lit_end(s, i, "["@) {
        Some(a) => {
            let w = ws_end(s, a);
            match lit_end(s, w, "]"@) {
                Some(end) => Some((Seq::empty(), end)),
                None => match subscription_at(s, w) {
                    Some((pair, e)) => if a < e <= s.len() {
                        subs_rest(s, e, Seq::empty().push(pair))
                    } else {
                        None
                    },
                    None => None,
                },
            }
        },
        None => None,
    }
}

/// The op member `"op" : "subscribe"`, with whitespace around the colon:
/// the index after it.
pub open spec fn op_member(s: Seq<char>, i: int, quoted_op: Seq<char>) -> Option<int> {
    match lit_end(s, i, "\"op\""@) {
        Some(a) => match lit_end(s, ws_end(s, a), ":"@) {
            Some(c) => lit_end(s, ws_end(s, c), quoted_op),
            None => None,
        },
        None => None,
    }
}

/// The member `"subscriptions" : [...]`: the subscriptions and the index
/// after the array.
pub open spec fn subs_member(s: Seq<char>, i: int) -> Option<(Seq<(int, int)>, int)> {
    match lit_end(s, i, "\"subscriptions\""@) {
        Some(a) => match lit_end(s, ws_end(s, a), ":"@) {
            Some(c) => subs_array_at(s, ws_end(s, c)),
            None => None,
        },
        None => None,
    }
}

/// The subscribe document: an object holding the op member and the
/// subscriptions member, in either order, and nothing after it. Yields the
/// subscriptions in order.
pub open spec fn subscribe_doc(s: Seq<char>) -> Option<Seq<(int, int)>> {
    match lit_end(s, ws_end(s, 0), "{"@) {
        Some(a) => {
            let b = ws_end(s, a);
            match op_member(s, b, "\"subscribe\""@) {
                Some(e) => match lit_end(s, ws_end(s, e), ","@) {
                    Some(c) => match subs_member(s, ws_end(s, c)) {
                        Some((subs, f)) => match lit_end(s, ws_end(s, f), "}"@) {
                            Some(end) => if ws_end(s, end) == s.len() {
                                Some(subs)
                            } else {
                                None
                            },
                            None => None,
                        },
                        None => None,
                    },
                    None => None,
                },
                None => match subs_member(s, b) {
                    Some((subs, e)) => match lit_end(s, ws_end(s, e), ","@) {
                        Some(c) => match op_member(s, ws_end(s, c), "\"subscribe\""@) {
                            Some(f) => match lit_end(s, ws_end(s, f), "}"@) {
                                Some(end) => if ws_end(s, end) == s.len() {
                                    Some(subs)
                                } else {
                                    None
                                },
                                None => None,
                            },
                            None => None,
                        },
                        None => None,
                    },
                    None => None,
                },
            }
        },
        None => None,
    }
}

/// The subscription id at `i`, accepted only when it fits its 32-bit wire
/// width.
pub open spec fn sub_id_at(s: Seq<char>, i: int) -> Option<(int, int)> {
    match number_at(s, i) {
        Some((v, j)) => if v <= u32::MAX {
            Some((v, j))
        } else {
            None
        },
        None => None,
    }
}

/// The rest of a subscription-id array after one element: either the
/// closing bracket, or a comma and another id and the rest again.
pub open spec fn ids_rest(s: Seq<char>, i: int, acc: Seq<int>) -> Option<(Seq<int>, int)>
    decreases s.len() - i when 0 <= i <= s.len()
{
    let w = ws_end(s, i);
    match lit_end(s, w, "]"@) {
        Some(end) => Some((acc, end)),
        None => match lit_end(s, w, ","@) {
            Some(c) => match sub_id_at(s, ws_end(s, c)) {
                Some((v, e)) => if i < e <= s.len() {
                    ids_rest(s, e, acc.push(v))
                } else {
                    None
                },
                None => None,
            },
            None => None,
        },
    }
}

/// The subscription-id array at `i`: the listed ids in order, and the index
/// after the closing bracket.
pub open spec fn ids_array_at(s: Seq<char>, i: int) -> Option<(Seq<int>, int)> {
    match lit_end(s, i, "["@) {
        Some(a) => {
            let w = ws_end(s, a);
            match lit_end(s, w, "]"@) {
                Some(end) => Some((Seq::empty(), end)),
                None => match sub_id_at(s, w) {
                    Some((v, e)) => if a < e <= s.len() {
                        ids_rest(s, e, Seq::empty().push(v))
                    } else {
                        None
                    },
                    None => None,
                },
            }
        },
        None => None,
    }
}

/// The member `"subscriptionIds" : [...]`: the ids and the index after the
/// array.
pub open spec fn ids_member(s: Seq<char>, i: int) -> Option<(Seq<int>, int)> {
    match lit_end(s, i, "\"subscriptionIds\""@) {
        Some(a) => match lit_end(s, ws_end(s, a), ":"@) {
            Some(c) => ids_array_at(s, ws_end(s, c)),
            None => None,
        },
        None => None,
    }
}

/// The unsubscribe document: an object holding the op member and the
/// subscription-id member, in either order, and nothing after it. Yields
/// the ids in order.
pub open spec fn unsubscribe_doc(s: Seq<char>) -> Option<Seq<int>> {
    match lit_end(s, ws_end(s, 0), "{"@) {
        Some(a) => {
            let b = ws_end(s, a);
            match op_member(s, b, "\"unsubscribe\""@) {
                Some(e) => match lit_end(s, ws_end(s, e), ","@) {
                    Some(c) => match ids_member(s, ws_end(s, c)) {
                        Some((ids, f)) => match lit_end(s, ws_end(s, f), "}"@) {
                            Some(end) => if ws_end(s, end) == s.len() {
                                Some(ids)
                            } else {
                                None
                            },
                            None => None,
                        },
                        None => None,
                    },
                    None => None,
                },
                None => match ids_member(s, b) {
                    Some((ids, e)) => match lit_end(s, ws_end(s, e), ","@) {
                        Some(c) => match op_member(s, ws_end(s, c), "\"unsubscribe\""@) {
                            Some(f) => match lit_end(s, ws_end(s, f), "}"@) {
                                Some(end) => if ws_end(s, end) == s.len() {
                                    Some(ids)
                                } else {
                                    None
                                },
                                None => None,
                            },
                            None => None,
                        },
                        None => None,
                    },
                    None => None,
                },
            }
        },
        None => None,
    }
}

/// The parsed subscriptions, as unbounded pairs.
pub open spec fn pairs_int_view(v: Seq<(u32, u64)>) -> Seq<(int, int)> {
    v.map_values(|p: (u32, u64)| (p.0 as int, p.1 as int))
}

/// The parsed subscription ids, as unbounded integers.
pub open spec fn ids_int_view(v: Seq<u32>) -> Seq<int> {
    v.map_values(|x: u32| x as int)
}


/// Skips whitespace.
fn skip_ws(s: &str, i: usize) -> (r: usize)
    requires
        i <= s@.len(),
    ensures
        r == ws_end(s@, i as int),
        i <= r <= s@.len(),
    decreases s@.len() - i,
{
    if i < s.unicode_len() {
        let c = s.get_char(i);
        if c == ' ' || c == '\t' || c == '\n' || c == '\r' {
            return skip_ws(s, i + 1);
        }
    }
    i
}

/// Matches a literal at `i`.
fn match_lit(s: &str, i: usize, lit: &str) -> (r: Option<usize>)
    requires
        i <= s@.len(),
    ensures
        r is Some <==> lit_end(s@, i as int, lit@) is Some,
        r matches Some(x) ==> lit_end(s@, i as int, lit@) == Some(x as int) && i <= x <= s@.len(),
    decreases 0int,
{
    let n = s.unicode_len();
    let m = lit.unicode_len();
    if m > n - i {
        return None;
    }
    let mut k: usize = 0;
    while k < m
        invariant
            n == s@.len(),
            m == lit@.len(),
            i + m <= n,
            0 <= k <= m,
            forall|t: int| 0 <= t < k ==> s@[i + t] == lit@[t],
        decreases m - k,
    {
        if s.get_char(i + k) != lit.get_char(k) {
            proof {
                if s@.subrange(i as int, i + m) == lit@ {
                    assert(s@.subrange(i as int, i + m)[k as int] == lit@[k as int]);
                }
            }
            return None;
        }
        k = k + 1;
    }
    proof {
        assert(s@.subrange(i as int, i + m) =~= lit@);
    }
    Some(i + m)
}

/// Finds the end of the digit run at `i`.
fn digit_run_end(s: &str, i: usize) -> (r: usize)
    requires
        i <= s@.len(),
    ensures
        r == digit_end(s@, i as int),
        i <= r <= s@.len(),
    decreases s@.len() - i,
{
    if i < s.unicode_len() {
        let c = s.get_char(i);
        let cu = c as u32;
        if cu >= 48 && cu <= 57 {
            return digit_run_end(s, i + 1);
        }
    }
    i
}

/// Every position of a digit run holds a digit.
proof fn lemma_digit_end_digits(s: Seq<char>, i: int)
    requires
        0 <= i <= s.len(),
    ensures
        forall|t: int| i <= t < digit_end(s, i) ==> is_digit(s[t]),
        i <= digit_end(s, i) <= s.len(),
    decreases s.len() - i,
{
    if i < s.len() && is_digit(s[i]) {
        lemma_digit_end_digits(s, i + 1);
    }
}

/// Powers of ten.
pub open spec fn pow10(k: int) -> int
    decreases k,
{
    if k <= 0 {
        1
    } else {
        10 * pow10(k - 1)
    }
}

/// Powers of ten grow.
proof fn lemma_pow10_mono(a: int, b: int)
    requires
        0 <= a <= b,
    ensures
        pow10(a) <= pow10(b),
        pow10(a) >= 1,
    decreases b,
{
    if a < b {
        lemma_pow10_mono(a, b - 1);
    } else if a > 0 {
        lemma_pow10_mono(a - 1, a - 1);
    }
}

/// A digit run's value is bounded by the power of ten of its width.
proof fn lemma_digits_value_bound(s: Seq<char>, i: int, j: int)
    requires
        i <= j <= s.len(),
        0 <= i,
        forall|t: int| i <= t < j ==> is_digit(#[trigger] s[t]),
    ensures
        0 <= digits_value(s, i, j) < pow10(j - i),
    decreases j - i,
{
    if j > i {
        lemma_digits_value_bound(s, i, j - 1);
        assert(is_digit(s[j - 1]));
        assert(digits_value(s, i, j) == digits_value(s, i, j - 1) * 10 + (s[j - 1] as int - 48));
    }
}

/// Parses the number at `i`.
fn parse_number(s: &str, i: usize) -> (r: Option<(u64, usize)>)
    requires
        i <= s@.len(),
    ensures
        r is Some <==> number_at(s@, i as int) is Some,
        r matches Some((v, j)) ==> number_at(s@, i as int) == Some((v as int, j as int)) && i <= j
            <= s@.len(),
{
    let j = digit_run_end(s, i);
    if j == i || j - i > 19 {
        return None;
    }
    if s.get_char(i) == '0' && j > i + 1 {
        return None;
    }
    proof {
        lemma_digit_end_digits(s@, i as int);
        lemma_digits_value_bound(s@, i as int, j as int);
    }
    let mut acc: u64 = 0;
    let mut k: usize = i;
    while k < j
        invariant
            i <= k <= j <= s@.len(),
            j - i <= 19,
            j == digit_end(s@, i as int),
            forall|t: int| i <= t < j ==> is_digit(#[trigger] s@[t]),
            acc == digits_value(s@, i as int, k as int),
        decreases j - k,
    {
        let c = s.get_char(k);
        proof {
            lemma_digits_value_bound(s@, i as int, k as int);
            lemma_pow10_mono(k - i, 18);
            reveal_with_fuel(pow10, 20);
            assert(pow10(18) == 1_000_000_000_000_000_000);
        }
        acc = acc * 10 + (((c as u32) - 48) as u64);
        k = k + 1;
    }
    Some((acc, j))
}

/// Parses `"key" : number` at `i`.
fn parse_keyval_number(s: &str, i: usize, quoted_key: &str) -> (r: Option<(u64, usize)>)
    requires
        i <= s@.len(),
    ensures
        r is Some <==> keyval_number(s@, i as int, quoted_key@) is Some,
        r matches Some((v, j)) ==> keyval_number(s@, i as int, quoted_key@) == Some(
            (v as int, j as int),
        ) && i <= j <= s@.len(),
{
    let a = match match_lit(s, i, quoted_key) {
        Some(a) => a,
        None => {
            return None;
        },
    };
    let c = match match_lit(s, skip_ws(s, a), ":") {
        Some(c) => c,
        None => {
            return None;
        },
    };
    let d = skip_ws(s, c);
    match parse_number(s, d) {
        Some((v, j)) => {
            proof {
                lemma_digit_end_digits(s@, d as int);
            }
            Some((v, j))
        },
        None => None,
    }
}

/// Parses the subscription object at `i`, refusing ids beyond their wire
/// widths.
fn parse_subscription(s: &str, i: usize) -> (r: Option<((u32, u64), usize)>)
    requires
        i <= s@.len(),
    ensures
        r is Some <==> subscription_at(s@, i as int) is Some,
        r matches Some(((idv, chv), j)) ==> subscription_at(s@, i as int) == Some(
            ((idv as int, chv as int), j as int),
        ) && i < j <= s@.len(),
{
    let a = match match_lit(s, i, "{") {
        Some(a) => a,
        None => {
            return None;
        },
    };
    let b = skip_ws(s, a);
    match parse_keyval_number(s, b, "\"id\"") {
        Some((idv, e)) => {
            let f = match match_lit(s, skip_ws(s, e), ",") {
                Some(f) => f,
                None => {
                    return None;
                },
            };
            match parse_keyval_number(s, skip_ws(s, f), "\"channelId\"") {
                Some((chv, h)) => match match_lit(s, skip_ws(s, h), "}") {
                    Some(end) => {
                        if idv > u32::MAX as u64 {
                            return None;
                        }
                        proof {
                            reveal_strlit("{");
                            assert(a == i + 1);
                        }
                        Some(((idv as u32, chv), end))
                    },
                    None => None,
                },
                None => None,
            }
        },
        None => match parse_keyval_number(s, b, "\"channelId\"") {
            Some((chv, e)) => {
                let f = match match_lit(s, skip_ws(s, e), ",") {
                    Some(f) => f,
                    None => {
                        return None;
                    },
                };
                match parse_keyval_number(s, skip_ws(s, f), "\"id\"") {
                    Some((idv, h)) => match match_lit(s, skip_ws(s, h), "}") {
                        Some(end) => {
                            if idv > u32::MAX as u64 {
                                return None;
                            }
                            proof {
                                reveal_strlit("{");
                                assert(a == i + 1);
                            }
                            Some(((idv as u32, chv), end))
                        },
                        None => None,
                    },
                    None => None,
                }
            },
            None => None,
        },
    }
}


/// Parses the rest of a subscription array after one element.
fn parse_subs_rest(s: &str, i: usize, acc: Vec<(u32, u64)>) -> (r: Option<(Vec<(u32, u64)>, usize)>)
    requires
        i <= s@.len(),
    ensures
        r is Some <==> subs_rest(s@, i as int, pairs_int_view(acc@)) is Some,
        r matches Some((v, j)) ==> subs_rest(s@, i as int, pairs_int_view(acc@)) == Some(
            (pairs_int_view(v@), j as int),
        ) && j <= s@.len(),
    decreases s@.len() - i,
{
    let w = skip_ws(s, i);
    match match_lit(s, w, "]") {
        Some(end) => Some((acc, end)),
        None => {
            let c = match match_lit(s, w, ",") {
                Some(c) => c,
                None => {
                    return None;
                },
            };
            match parse_subscription(s, skip_ws(s, c)) {
                Some(((idv, chv), e)) => {
                    if e > i && e <= s.unicode_len() {
                        let mut acc2 = acc;
                        let ghost accv = pairs_int_view(acc2@);
                        acc2.push((idv, chv));
                        proof {
                            assert(pairs_int_view(acc2@) =~= accv.push((idv as int, chv as int)));
                        }
                        parse_subs_rest(s, e, acc2)
                    } else {
                        None
                    }
                },
                None => None,
            }
        },
    }
}

/// Parses the subscription array at `i`.
fn parse_subs_array(s: &str, i: usize) -> (r: Option<(Vec<(u32, u64)>, usize)>)
    requires
        i <= s@.len(),
    ensures
        r is Some <==> subs_array_at(s@, i as int) is Some,
        r matches Some((v, j)) ==> subs_array_at(s@, i as int) == Some(
            (pairs_int_view(v@), j as int),
        ) && j <= s@.len(),
{
    let a = match match_lit(s, i, "[") {
        Some(a) => a,
        None => {
            return None;
        },
    };
    let w = skip_ws(s, a);
    match match_lit(s, w, "]") {
        Some(end) => {
            let empty: Vec<(u32, u64)> = Vec::new();
            proof {
                assert(pairs_int_view(empty@) =~= Seq::<(int, int)>::empty());
            }
            Some((empty, end))
        },
        None => match parse_subscription(s, w) {
            Some(((idv, chv), e)) => {
                if e > a && e <= s.unicode_len() {
                    let mut acc: Vec<(u32, u64)> = Vec::new();
                    acc.push((idv, chv));
                    proof {
                        assert(pairs_int_view(acc@) =~= Seq::<(int, int)>::empty().push(
                            (idv as int, chv as int),
                        ));
                    }
                    parse_subs_rest(s, e, acc)
                } else {
                    None
                }
            },
            None => None,
        },
    }
}

/// Parses the op member at `i`.
fn parse_op_member(s: &str, i: usize, quoted_op: &str) -> (r: Option<usize>)
    requires
        i <= s@.len(),
    ensures
        r is Some <==> op_member(s@, i as int, quoted_op@) is Some,
        r matches Some(j) ==> op_member(s@, i as int, quoted_op@) == Some(j as int) && j
            <= s@.len(),
{
    let a = match match_lit(s, i, "\"op\"") {
        Some(a) => a,
        None => {
            return None;
        },
    };
    let c = match match_lit(s, skip_ws(s, a), ":") {
        Some(c) => c,
        None => {
            return None;
        },
    };
    match_lit(s, skip_ws(s, c), quoted_op)
}

/// Parses the subscriptions member at `i`.
fn parse_subs_member(s: &str, i: usize) -> (r: Option<(Vec<(u32, u64)>, usize)>)
    requires
        i <= s@.len(),
    ensures
        r is Some <==> subs_member(s@, i as int) is Some,
        r matches Some((v, j)) ==> subs_member(s@, i as int) == Some(
            (pairs_int_view(v@), j as int),
        ) && j <= s@.len(),
{
    let a = match match_lit(s, i, "\"subscriptions\"") {
        Some(a) => a,
        None => {
            return None;
        },
    };
    let c = match match_lit(s, skip_ws(s, a), ":") {
        Some(c) => c,
        None => {
            return None;
        },
    };
    parse_subs_array(s, skip_ws(s, c))
}

/// Parses a subscribe document: the client-chosen subscription ids with the
/// channel each maps to, in order, exactly when the text is a well-formed
/// subscribe operation and every id fits its wire width.
pub fn parse_subscribe(s: &str) -> (r: Option<Vec<(u32, u64)>>)
    ensures
        r is Some <==> subscribe_doc(s@) is Some,
        r matches Some(v) ==> subscribe_doc(s@) == Some(pairs_int_view(v@)),
{
    let a = match match_lit(s, skip_ws(s, 0), "{") {
        Some(a) => a,
        None => {
            return None;
        },
    };
    let b = skip_ws(s, a);
    match parse_op_member(s, b, "\"subscribe\"") {
        Some(e) => {
            let c = match match_lit(s, skip_ws(s, e), ",") {
                Some(c) => c,
                None => {
                    return None;
                },
            };
            let (subs, f) = match parse_subs_member(s, skip_ws(s, c)) {
                Some(x) => x,
                None => {
                    return None;
                },
            };
            let end = match match_lit(s, skip_ws(s, f), "}") {
                Some(end) => end,
                None => {
                    return None;
                },
            };
            if skip_ws(s, end) == s.unicode_len() {
                Some(subs)
            } else {
                None
            }
        },
        None => {
            let (subs, e) = match parse_subs_member(s, b) {
                Some(x) => x,
                None => {
                    return None;
                },
            };
            let c = match match_lit(s, skip_ws(s, e), ",") {
                Some(c) => c,
                None => {
                    return None;
                },
            };
            let f = match parse_op_member(s, skip_ws(s, c), "\"subscribe\"") {
                Some(f) => f,
                None => {
                    return None;
                },
            };
            let end = match match_lit(s, skip_ws(s, f), "}") {
                Some(end) => end,
                None => {
                    return None;
                },
            };
            if skip_ws(s, end) == s.unicode_len() {
                Some(subs)
            } else {
                None
            }
        },
    }
}

/// Parses the subscription id at `i`, refusing ids beyond their wire width.
fn parse_sub_id(s: &str, i: usize) -> (r: Option<(u32, usize)>)
    requires
        i <= s@.len(),
    ensures
        r is Some <==> sub_id_at(s@, i as int) is Some,
        r matches Some((v, j)) ==> sub_id_at(s@, i as int) == Some((v as int, j as int)) && i <= j
            <= s@.len(),
{
    match parse_number(s, i) {
        Some((v, j)) => {
            if v > u32::MAX as u64 {
                return None;
            }
            Some((v as u32, j))
        },
        None => None,
    }
}

/// Parses the rest of a subscription-id array after one element.
fn parse_ids_rest(s: &str, i: usize, acc: Vec<u32>) -> (r: Option<(Vec<u32>, usize)>)
    requires
        i <= s@.len(),
    ensures
        r is Some <==> ids_rest(s@, i as int, ids_int_view(acc@)) is Some,
        r matches Some((v, j)) ==> ids_rest(s@, i as int, ids_int_view(acc@)) == Some(
            (ids_int_view(v@), j as int),
        ) && j <= s@.len(),
    decreases s@.len() - i,
{
    let w = skip_ws(s, i);
    match match_lit(s, w, "]") {
        Some(end) => Some((acc, end)),
        None => {
            let c = match match_lit(s, w, ",") {
                Some(c) => c,
                None => {
                    return None;
                },
            };
            match parse_sub_id(s, skip_ws(s, c)) {
                Some((v, e)) => {
                    if e > i && e <= s.unicode_len() {
                        let mut acc2 = acc;
                        let ghost accv = ids_int_view(acc2@);
                        acc2.push(v);
                        proof {
                            assert(ids_int_view(acc2@) =~= accv.push(v as int));
                        }
                        parse_ids_rest(s, e, acc2)
                    } else {
                        None
                    }
                },
                None => None,
            }
        },
    }
}

/// Parses the subscription-id array at `i`.
fn parse_ids_array(s: &str, i: usize) -> (r: Option<(Vec<u32>, usize)>)
    requires
        i <= s@.len(),
    ensures
        r is Some <==> ids_array_at(s@, i as int) is Some,
        r matches Some((v, j)) ==> ids_array_at(s@, i as int) == Some(
            (ids_int_view(v@), j as int),
        ) && j <= s@.len(),
{
    let a = match match_lit(s, i, "[") {
        Some(a) => a,
        None => {
            return None;
        },
    };
    let w = skip_ws(s, a);
    match match_lit(s, w, "]") {
        Some(end) => {
            let empty: Vec<u32> = Vec::new();
            proof {
                assert(ids_int_view(empty@) =~= Seq::<int>::empty());
            }
            Some((empty, end))
        },
        None => match parse_sub_id(s, w) {
            Some((v, e)) => {
                if e > a && e <= s.unicode_len() {
                    let mut acc: Vec<u32> = Vec::new();
                    acc.push(v);
                    proof {
                        assert(ids_int_view(acc@) =~= Seq::<int>::empty().push(v as int));
                    }
                    parse_ids_rest(s, e, acc)
                } else {
                    None
                }
            },
            None => None,
        },
    }
}

/// Parses the subscription-ids member at `i`.
fn parse_ids_member(s: &str, i: usize) -> (r: Option<(Vec<u32>, usize)>)
    requires
        i <= s@.len(),
    ensures
        r is Some <==> ids_member(s@, i as int) is Some,
        r matches Some((v, j)) ==> ids_member(s@, i as int) == Some((ids_int_view(v@), j as int))
            && j <= s@.len(),
{
    let a = match match_lit(s, i, "\"subscriptionIds\"") {
        Some(a) => a,
        None => {
            return None;
        },
    };
    let c = match match_lit(s, skip_ws(s, a), ":") {
        Some(c) => c,
        None => {
            return None;
        },
    };
    parse_ids_array(s, skip_ws(s, c))
}

/// Parses an unsubscribe document: the subscription ids to remove, in
/// order, exactly when the text is a well-formed unsubscribe operation and
/// every id fits its wire width.
pub fn parse_unsubscribe(s: &str) -> (r: Option<Vec<u32>>)
    ensures
        r is Some <==> unsubscribe_doc(s@) is Some,
        r matches Some(v) ==> unsubscribe_doc(s@) == Some(ids_int_view(v@)),
{
    let a = match match_lit(s, skip_ws(s, 0), "{") {
        Some(a) => a,
        None => {
            return None;
        },
    };
    let b = skip_ws(s, a);
    match parse_op_member(s, b, "\"unsubscribe\"") {
        Some(e) => {
            let c = match match_lit(s, skip_ws(s, e), ",") {
                Some(c) => c,
                None => {
                    return None;
                },
            };
            let (ids, f) = match parse_ids_member(s, skip_ws(s, c)) {
                Some(x) => x,
                None => {
                    return None;
                },
            };
            let end = match match_lit(s, skip_ws(s, f), "}") {
                Some(end) => end,
                None => {
                    return None;
                },
            };
            if skip_ws(s, end) == s.unicode_len() {
                Some(ids)
            } else {
                None
            }
        },
        None => {
            let (ids, e) = match parse_ids_member(s, b) {
                Some(x) => x,
                None => {
                    return None;
                },
            };
            let c = match match_lit(s, skip_ws(s, e), ",") {
                Some(c) => c,
                None => {
                    return None;
                },
            };
            let f = match parse_op_member(s, skip_ws(s, c), "\"unsubscribe\"") {
                Some(f) => f,
                None => {
                    return None;
                },
            };
            let end = match match_lit(s, skip_ws(s, f), "}") {
                Some(end) => end,
                None => {
                    return None;
                },
            };
            if skip_ws(s, end) == s.unicode_len() {
                Some(ids)
            } else {
                None
            }
        },
    }
}

} // verus!
