//! Translation between the exchange slugs that clients use and the market
//! names that cbag uses.
use vstd::prelude::*;
use crate::text::{
    ascii_lower, ascii_lower_char, ascii_upper_char, ascii_upper, find_char, has_suffix, is_first_index, first_index, is_ascii_seq, str_eq, strip_suffix,
    strip_suffix_spec, suffix_from, to_lowercase, to_uppercase, unicode_lowercase,
    unicode_uppercase,
};

verus! {

/// `s` without the suffix `p` if it has it, else `s`.
pub open spec fn strip_or_keep(s: Seq<char>, p: Seq<char>) -> Seq<char> {
    match strip_suffix_spec(s, p) {
        Some(t) => t,
        None => s,
    }
}

/// What follows the first `-` of `s`, or `s` when it has none.
pub open spec fn after_first_dash(s: Seq<char>) -> Seq<char> {
    match first_index(s, '-') {
        Some(i) => s.skip(i + 1),
        None => s,
    }
}

/// The market part of a cbag market name: without the non-aggregated marker
/// (`#NA`, then `%23NA`) and without a client prefix up to the first `-`.
pub open spec fn cbag_market_core(market: Seq<char>) -> Seq<char> {
    after_first_dash(strip_or_keep(strip_or_keep(market, "#NA"@), "%23NA"@))
}

/// The exchange slug for a lower-case cbag market name.
pub open spec fn exchange_alias(lower: Seq<char>) -> Seq<char> {
    if lower == "coinbase"@ {
        "gdax"@
    } else if lower == "huobi"@ {
        "huobipro"@
    } else {
        lower
    }
}

/// The upper-case cbag market for an exchange slug, given the slug's lower-case
/// and upper-case forms.
pub open spec fn cbag_market_base(lower: Seq<char>, upper: Seq<char>) -> Seq<char> {
    if lower == "gdax"@ {
        "COINBASE"@
    } else if lower == "huobipro"@ {
        "HUOBI"@
    } else {
        upper
    }
}

/// The cbag market name for an exchange, from the base name, the client id and the flags.
pub open spec fn cbag_market_decorated(
    base: Seq<char>,
    client_id: Seq<char>,
    non_agg_prices: bool,
    customer_specific: bool,
) -> Seq<char> {
    let named = if customer_specific { client_id + "-"@ + base } else { base };
    if non_agg_prices { named + "%23NA"@ } else { named }
}

/// The exchange slug for a cbag market, for an ASCII market name.
pub open spec fn cbag_market_to_exchange_ascii(market: Seq<char>) -> Seq<char> {
    exchange_alias(ascii_lower(cbag_market_core(market)))
}

/// The cbag market for an exchange slug, for an ASCII slug.
pub open spec fn exchange_to_cbag_market_ascii(
    exchange: Seq<char>,
    client_id: Seq<char>,
    non_agg_prices: bool,
    customer_specific: bool,
) -> Seq<char> {
    cbag_market_decorated(
        cbag_market_base(ascii_lower(exchange), ascii_upper(exchange)),
        client_id,
        non_agg_prices,
        customer_specific,
    )
}

/// The market part of a cbag market name (see `cbag_market_core`).
pub fn cbag_market_core_of(market: &str) -> (r: String)
    ensures
        r@ == cbag_market_core(market@),
{
    let m1 = match strip_suffix(market, "#NA") {
        Some(m) => m,
        None => market.to_string(),
    };
    let m2 = match strip_suffix(m1.as_str(), "%23NA") {
        Some(m) => m,
        None => m1,
    };
    match find_char(m2.as_str(), '-') {
        Some(i) => suffix_from(m2.as_str(), i + 1),
        None => m2,
    }
}

/// The exchange slug for a lower-case cbag market name: `coinbase` is `gdax`,
/// `huobi` is `huobipro`, any other name is itself.
pub fn exchange_slug_from_lowercase(lower: &str) -> (r: String)
    ensures
        r@ == exchange_alias(lower@),
{
    if str_eq(lower, "coinbase") {
        String::from_str("gdax")
    } else if str_eq(lower, "huobi") {
        String::from_str("huobipro")
    } else {
        lower.to_string()
    }
}

/// The exchange slug that clients know for a cbag market name.
pub fn cbag_market_to_exchange(market: &str) -> (r: String)
    ensures
        r@ == exchange_alias(unicode_lowercase(cbag_market_core(market@))),
        is_ascii_seq(market@) ==> r@ == cbag_market_to_exchange_ascii(market@),
        is_ascii_seq(cbag_market_core(market@)) ==> r@ == exchange_alias(
            ascii_lower(cbag_market_core(market@)),
        ),
{
    let core = cbag_market_core_of(market);
    proof {
        lemma_core_is_subsequence(market@);
    }
    let lower = to_lowercase(core.as_str());
    exchange_slug_from_lowercase(lower.as_str())
}

/// The upper-case cbag market for an exchange slug, from its lower-case and
/// upper-case forms: `gdax` is `COINBASE`, `huobipro` is `HUOBI`, any other slug
/// is its upper-case form.
pub fn cbag_market_from_cases(lower: &str, upper: &str) -> (r: String)
    ensures
        r@ == cbag_market_base(lower@, upper@),
{
    if str_eq(lower, "gdax") {
        String::from_str("COINBASE")
    } else if str_eq(lower, "huobipro") {
        String::from_str("HUOBI")
    } else {
        upper.to_string()
    }
}

/// The cbag market name from its base name, the client id and the flags.
pub fn decorate_cbag_market(
    base: String,
    client_id: &str,
    non_agg_prices: bool,
    customer_specific: bool,
) -> (r: String)
    ensures
        r@ == cbag_market_decorated(base@, client_id@, non_agg_prices, customer_specific),
{
    let mut exchange_str = base;
    if customer_specific {
        let mut s = client_id.to_string();
        s.append("-");
        s.append(exchange_str.as_str());
        exchange_str = s;
    }
    if non_agg_prices {
        exchange_str.append("%23NA");
    }
    exchange_str
}

/// The cbag market name for an exchange slug: `gdax` and `huobipro` have cbag
/// names of their own, other slugs are upper-cased; a customer-specific market is
/// prefixed with the client id and `-`, a non-aggregated one ends with `%23NA`.
pub fn exchange_to_cbag_market(
    exchange: &str,
    client_id: &str,
    non_agg_prices: bool,
    customer_specific: bool,
    _public: bool,
) -> (r: String)
    ensures
        r@ == cbag_market_decorated(
            cbag_market_base(unicode_lowercase(exchange@), unicode_uppercase(exchange@)),
            client_id@,
            non_agg_prices,
            customer_specific,
        ),
        is_ascii_seq(exchange@) ==> r@ == exchange_to_cbag_market_ascii(
            exchange@,
            client_id@,
            non_agg_prices,
            customer_specific,
        ),
{
    let lower = to_lowercase(exchange);
    let upper = to_uppercase(exchange);
    let base = cbag_market_from_cases(lower.as_str(), upper.as_str());
    decorate_cbag_market(base, client_id, non_agg_prices, customer_specific)
}

/// Every character of the market part of a cbag market name comes from the name.
proof fn lemma_core_is_subsequence(market: Seq<char>)
    ensures
        is_ascii_seq(market) ==> is_ascii_seq(cbag_market_core(market)),
{
    let m1 = strip_or_keep(market, "#NA"@);
    let m2 = strip_or_keep(m1, "%23NA"@);
    assert(is_ascii_seq(market) ==> is_ascii_seq(m1));
    assert(is_ascii_seq(m1) ==> is_ascii_seq(m2));
    match first_index(m2, '-') {
        Some(i) => {
            assert(is_ascii_seq(m2) ==> is_ascii_seq(m2.skip(i + 1)));
        },
        None => {},
    }
}

/// No character of `s` is `-`.
pub open spec fn has_no_dash(s: Seq<char>) -> bool {
    forall|i: int| 0 <= i < s.len() ==> s[i] != '-'
}

/// `s` is ASCII and holds none of the characters that mark cbag market names:
/// `-` (before it, a client id), `#` and `%` (the non-aggregated marker).
pub open spec fn is_marker_free(s: Seq<char>) -> bool {
    is_ascii_seq(s) && forall|i: int| 0 <= i < s.len() ==> s[i] != '-' && s[i] != '#' && s[i] != '%'
}

/// At most one character of `s` is `-`.
pub open spec fn at_most_one_dash(s: Seq<char>) -> bool {
    forall|i: int, j: int| 0 <= i < j < s.len() ==> !(s[i] == '-' && s[j] == '-')
}

/// No character of `s` is an ASCII capital letter.
pub open spec fn has_no_capital(s: Seq<char>) -> bool {
    forall|i: int| 0 <= i < s.len() ==> !('A' <= s[i] && s[i] <= 'Z')
}

proof fn lemma_case_char(c: char)
    ensures
        ascii_lower_char(ascii_upper_char(c)) == ascii_lower_char(c),
        (c as u32) < 128 ==> (ascii_upper_char(c) as u32) < 128,
        (c as u32) < 128 ==> (ascii_lower_char(c) as u32) < 128,
        ascii_upper_char(c) == '-' <==> c == '-',
        ascii_upper_char(c) == '#' <==> c == '#',
        ascii_upper_char(c) == '%' <==> c == '%',
        ascii_lower_char(c) == '-' <==> c == '-',
        !('A' <= ascii_lower_char(c) && ascii_lower_char(c) <= 'Z'),
        ascii_lower_char(ascii_lower_char(c)) == ascii_lower_char(c),
        !('A' <= c && c <= 'Z') ==> ascii_lower_char(c) == c,
{
    if 'a' <= c && c <= 'z' {
        let u = ((c as u32) - 32) as char;
        assert((u as u32) == (c as u32) - 32);
        assert(ascii_upper_char(c) == u);
        assert('A' <= u && u <= 'Z');
        assert(ascii_lower_char(u) == (((u as u32) + 32) as char));
        assert((((u as u32) + 32) as char) == c);
    }
    if 'A' <= c && c <= 'Z' {
        let l = ((c as u32) + 32) as char;
        assert((l as u32) == (c as u32) + 32);
        assert(ascii_lower_char(c) == l);
        assert('a' <= l && l <= 'z');
    }
}

/// The upper case of a marker-free sequence is marker-free, and lowers as the
/// sequence does.
proof fn lemma_upper_marker_free(e: Seq<char>)
    requires
        is_marker_free(e),
    ensures
        is_marker_free(ascii_upper(e)),
        ascii_lower(ascii_upper(e)) == ascii_lower(e),
{
    assert forall|i: int| 0 <= i < e.len() implies (ascii_upper(e)[i] as u32) < 128 && ascii_upper(e)[i]
        != '-' && ascii_upper(e)[i] != '#' && ascii_upper(e)[i] != '%' && ascii_lower(ascii_upper(e))[i]
        == ascii_lower(e)[i] by {
        lemma_case_char(e[i]);
    }
    assert(ascii_lower(ascii_upper(e)) =~= ascii_lower(e));
}

/// A sequence does not end with `p` when `p` holds no `-` and the last
/// `p.len()` characters hold a `-` or do not start with `p`'s first character.
proof fn lemma_no_suffix(s: Seq<char>, p: Seq<char>)
    requires
        p.len() > 0,
        forall|i: int| 0 <= i < p.len() ==> p[i] != '-',
        p.len() <= s.len() ==> (exists|j: int| s.len() - p.len() <= j < s.len() && s[j] == '-') || s[s.len()
            - p.len()] != p[0],
    ensures
        !has_suffix(s, p),
{
    if has_suffix(s, p) {
        let w = s.subrange(s.len() - p.len(), s.len() as int);
        assert(w == p);
        if exists|j: int| s.len() - p.len() <= j < s.len() && s[j] == '-' {
            let j = choose|j: int| s.len() - p.len() <= j < s.len() && s[j] == '-';
            assert(w[j - (s.len() - p.len())] == s[j]);
        } else {
            assert(w[0] == s[s.len() - p.len()]);
        }
    }
}

/// The marker `p` (`#NA` or `%23NA`) does not end a cbag market name made of a
/// marker-free base, prefixed or not by a client id without `-`.
proof fn lemma_named_has_no_marker(client_id: Seq<char>, base: Seq<char>, customer_specific: bool, p: Seq<char>)
    requires
        is_marker_free(base),
        has_no_dash(client_id),
        p.len() > 0,
        p[0] == '#' || p[0] == '%',
        forall|i: int| 0 <= i < p.len() ==> p[i] != '-',
    ensures
        !has_suffix(if customer_specific { client_id + "-"@ + base } else { base }, p),
{
    reveal_strlit("-");
    let named = if customer_specific { client_id + "-"@ + base } else { base };
    if p.len() <= named.len() {
        let k = p.len() as int;
        if customer_specific && base.len() < k {
            let j = client_id.len() as int;
            assert(named[j] == '-');
            assert(named.len() - k <= j < named.len());
        } else {
            let j = named.len() - k;
            if customer_specific {
                assert(named[j] == base[j - client_id.len() - 1]);
            }
            assert(named[j] != p[0]);
        }
    }
    lemma_no_suffix(named, p);
}

/// Law: an exchange slug, translated to its cbag market and back, gives the slug
/// in lower case, with `coinbase` read as `gdax`, whatever the flags, for any
/// ASCII slug without `-`, `#` or `%` and any client id without `-`. The market
/// part of the name is ASCII, so the translation back lower-cases it as ASCII;
/// the whole name is ASCII when the client id is.
pub proof fn lemma_exchange_round_trip(
    exchange: Seq<char>,
    client_id: Seq<char>,
    non_agg_prices: bool,
    customer_specific: bool,
)
    requires
        is_marker_free(exchange),
        has_no_dash(client_id),
    ensures
        ({
            let market = exchange_to_cbag_market_ascii(exchange, client_id, non_agg_prices, customer_specific);
            &&& is_ascii_seq(cbag_market_core(market))
            &&& exchange_alias(ascii_lower(cbag_market_core(market))) == exchange_alias(ascii_lower(exchange))
            &&& is_ascii_seq(client_id) ==> is_ascii_seq(market)
                && cbag_market_to_exchange_ascii(market) == exchange_alias(ascii_lower(exchange))
        }),
{
    reveal_strlit("COINBASE");
    reveal_strlit("HUOBI");
    reveal_strlit("coinbase");
    reveal_strlit("huobi");
    reveal_strlit("gdax");
    reveal_strlit("huobipro");
    reveal_strlit("-");
    reveal_strlit("#NA");
    reveal_strlit("%23NA");
    lemma_upper_marker_free(exchange);
    let lower = ascii_lower(exchange);
    let base = cbag_market_base(lower, ascii_upper(exchange));
    assert(ascii_lower("COINBASE"@) =~= "coinbase"@);
    assert(ascii_lower("HUOBI"@) =~= "huobi"@);
    assert(is_marker_free(base)) by {
        if lower == "gdax"@ {
            assert(base == "COINBASE"@);
        } else if lower == "huobipro"@ {
            assert(base == "HUOBI"@);
        }
    }
    assert(exchange_alias(ascii_lower(base)) == exchange_alias(lower)) by {
        if lower == "gdax"@ {
            assert("gdax"@.len() != "coinbase"@.len());
            assert("gdax"@.len() != "huobi"@.len());
            assert("coinbase"@.len() != "huobi"@.len());
        } else if lower == "huobipro"@ {
            assert("huobipro"@[0] != "coinbase"@[0]);
            assert("huobipro"@.len() != "huobi"@.len());
        }
    }
    let named = if customer_specific { client_id + "-"@ + base } else { base };
    lemma_named_has_no_marker(client_id, base, customer_specific, "#NA"@);
    lemma_named_has_no_marker(client_id, base, customer_specific, "%23NA"@);
    let market = cbag_market_decorated(base, client_id, non_agg_prices, customer_specific);
    if non_agg_prices {
        let t = named + "%23NA"@;
        assert(t.subrange(t.len() - 5, t.len() as int) =~= "%23NA"@);
        assert(t.subrange(0, t.len() - 5) =~= named);
        if has_suffix(t, "#NA"@) {
            assert(t[t.len() - 3] == t.subrange(t.len() - 3, t.len() as int)[0]);
            assert(t[t.len() - 3] == '3');
        }
    }
    assert(strip_or_keep(strip_or_keep(market, "#NA"@), "%23NA"@) == named);
    if customer_specific {
        let k = client_id.len() as int;
        assert(named[k] == '-');
        assert(is_first_index(named, '-', k)) by {
            assert forall|j: int| 0 <= j < k implies named[j] != '-' by {
                assert(named[j] == client_id[j]);
            }
        }
        assert forall|m: int| is_first_index(named, '-', m) implies m == k by {
            if m < k {
                assert(named[m] == client_id[m]);
            }
        }
        assert(first_index(named, '-') == Some(k));
        assert(named.skip(k + 1) =~= base);
    } else {
        assert forall|m: int| !is_first_index(named, '-', m) by {
            if 0 <= m < named.len() {
                assert(named[m] == base[m]);
            }
        }
    }
    assert(cbag_market_core(market) == base);
    if is_ascii_seq(client_id) {
        assert forall|i: int| 0 <= i < market.len() implies (market[i] as u32) < 128 by {
            if non_agg_prices && i >= named.len() {
                assert(market[i] == "%23NA"@[i - named.len()]);
            } else {
                assert(market[i] == named[i]);
                if customer_specific && i < client_id.len() {
                    assert(named[i] == client_id[i]);
                } else if customer_specific && i > client_id.len() {
                    assert(named[i] == base[i - client_id.len() - 1]);
                } else if !customer_specific {
                    assert(named[i] == base[i]);
                }
            }
        }
    }
}

/// Removing a suffix, if it is there, leaves a prefix.
proof fn lemma_strip_is_prefix(s: Seq<char>, p: Seq<char>)
    ensures
        strip_or_keep(s, p).len() <= s.len(),
        forall|i: int| 0 <= i < strip_or_keep(s, p).len() ==> #[trigger] strip_or_keep(s, p)[i] == s[i],
{
}

/// Law (idempotence): the exchange name of a cbag market with at most one `-`
/// holds no `-` and no capital letter, is neither `coinbase` nor `huobi`, and is
/// its own exchange name.
pub proof fn lemma_exchange_name_is_stable(market: Seq<char>)
    requires
        is_ascii_seq(market),
        at_most_one_dash(market),
    ensures
        ({
            let r = cbag_market_to_exchange_ascii(market);
            &&& is_ascii_seq(r)
            &&& has_no_dash(r)
            &&& ascii_lower(r) == r
            &&& r != "coinbase"@
            &&& r != "huobi"@
            &&& cbag_market_to_exchange_ascii(r) == r
        }),
{
    reveal_strlit("coinbase");
    reveal_strlit("huobi");
    reveal_strlit("gdax");
    reveal_strlit("huobipro");
    reveal_strlit("#NA");
    reveal_strlit("%23NA");
    let m1 = strip_or_keep(market, "#NA"@);
    let m2 = strip_or_keep(m1, "%23NA"@);
    lemma_strip_is_prefix(market, "#NA"@);
    lemma_strip_is_prefix(m1, "%23NA"@);
    assert forall|i: int| 0 <= i < m2.len() implies m2[i] == market[i] by {
        assert(m2[i] == m1[i]);
    }
    let core = cbag_market_core(market);
    assert(core == after_first_dash(m2));
    // the market part holds no dash
    match first_index(m2, '-') {
        Some(d) => {
            assert(is_first_index(m2, '-', d));
            assert(core == m2.skip(d + 1));
            assert forall|i: int| 0 <= i < core.len() implies core[i] != '-' by {
                assert(core[i] == m2[d + 1 + i]);
                assert(m2[d] == market[d]);
                assert(m2[d + 1 + i] == market[d + 1 + i]);
            }
        },
        None => {
            assert(core == m2);
            assert forall|i: int| 0 <= i < core.len() implies core[i] != '-' by {
                if core[i] == '-' {
                    assert(is_first_index(m2, '-', i) || exists|j: int| 0 <= j < i && m2[j] == '-');
                    if exists|j: int| 0 <= j < i && m2[j] == '-' {
                        let j = choose|j: int| 0 <= j < i && m2[j] == '-';
                        assert(m2[j] == market[j] && m2[i] == market[i]);
                    } else {
                        assert(is_first_index(m2, '-', i));
                    }
                }
            }
        },
    }
    assert forall|i: int| 0 <= i < core.len() implies (core[i] as u32) < 128 by {
        match first_index(m2, '-') {
            Some(d) => {
                assert(core[i] == m2[d + 1 + i]);
                assert(m2[d + 1 + i] == market[d + 1 + i]);
            },
            None => {
                assert(core[i] == m2[i]);
                assert(m2[i] == market[i]);
            },
        }
    }
    let low = ascii_lower(core);
    assert forall|i: int| 0 <= i < low.len() implies (low[i] as u32) < 128 && low[i] != '-'
        && !('A' <= low[i] && low[i] <= 'Z') && ascii_lower_char(low[i]) == low[i] by {
        lemma_case_char(core[i]);
    }
    let r = exchange_alias(low);
    assert(r != "coinbase"@ && r != "huobi"@) by {
        if low == "coinbase"@ {
            assert(r == "gdax"@);
            assert("gdax"@.len() != "coinbase"@.len());
            assert("gdax"@.len() != "huobi"@.len());
        } else if low == "huobi"@ {
            assert(r == "huobipro"@);
            assert("huobipro"@[0] != "coinbase"@[0]);
            assert("huobipro"@.len() != "huobi"@.len());
        }
    }
    assert(has_no_dash(r) && has_no_capital(r) && is_ascii_seq(r)) by {
        if low == "coinbase"@ {
            assert(r =~= seq!['g', 'd', 'a', 'x']);
        } else if low == "huobi"@ {
            assert(r =~= seq!['h', 'u', 'o', 'b', 'i', 'p', 'r', 'o']);
        }
    }
    assert forall|i: int| 0 <= i < r.len() implies ascii_lower(r)[i] == r[i] by {
        lemma_case_char(r[i]);
    }
    assert(ascii_lower(r) =~= r);
    // a name without capitals ends with neither marker
    if has_suffix(r, "#NA"@) {
        assert(r[r.len() - 1] == r.subrange(r.len() - 3, r.len() as int)[2]);
    }
    if has_suffix(r, "%23NA"@) {
        assert(r[r.len() - 1] == r.subrange(r.len() - 5, r.len() as int)[4]);
    }
    assert(strip_or_keep(strip_or_keep(r, "#NA"@), "%23NA"@) == r);
    assert forall|m: int| !is_first_index(r, '-', m) by {}
    assert(cbag_market_core(r) == r);
}

} // verus!
