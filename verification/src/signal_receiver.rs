//! Trading signals: futures symbol mapping and signal message checks.
use vstd::prelude::*;
use crate::text::{
    chars_of, ends_with_seq, ends_with_text, find_char, first_index, is_alpha_char, is_digit_char,
    last_index, lemma_index_unique, rfind_char, starts_with_seq, to_uppercase, uppercase,
};

verus! {

/// Direction of a signal.
#[derive(Debug, Clone, Copy, PartialEq, Eq, Structural)]
pub enum SignalSide {
    Buy,
    Sell,
}

/// A tradable signal. Prices are in paise.
#[derive(Debug, Clone)]
pub struct Signal {
    pub product: String,
    pub price: u64,
    pub target: u64,
    pub side: SignalSide,
    pub trade_qty: u32,
}

/// The suffix that marks a futures symbol.
pub open spec fn fut_suffix() -> Seq<char> {
    seq!['F', 'U', 'T']
}

/// `s` with every trailing "FUT" removed (`str::trim_end_matches("FUT")`).
pub open spec fn strip_fut(s: Seq<char>) -> Seq<char>
    decreases s.len(),
{
    if ends_with_seq(s, fut_suffix()) {
        strip_fut(s.subrange(0, s.len() - 3))
    } else {
        s
    }
}

/// `s` without its trailing ASCII letters.
pub open spec fn trim_end_alpha(s: Seq<char>) -> Seq<char>
    decreases s.len(),
{
    if s.len() > 0 && is_alpha_char(s.last()) {
        trim_end_alpha(s.drop_last())
    } else {
        s
    }
}

/// `s` without its trailing ASCII digits.
pub open spec fn trim_end_digits(s: Seq<char>) -> Seq<char>
    decreases s.len(),
{
    if s.len() > 0 && is_digit_char(s.last()) {
        trim_end_digits(s.drop_last())
    } else {
        s
    }
}

/// The underlying of a futures symbol: the symbol without "FUT", then
/// without the expiry month letters, then without the expiry digits.
pub open spec fn underlying_of(symbol: Seq<char>) -> Seq<char> {
    trim_end_digits(trim_end_alpha(strip_fut(symbol)))
}

/// The product a futures symbol trades as: its underlying followed by "-I";
/// none unless the symbol ends in "FUT" and has a nonempty underlying.
pub open spec fn mapped_symbol(symbol: Seq<char>) -> Option<Seq<char>> {
    if !ends_with_seq(symbol, fut_suffix()) {
        None
    } else if underlying_of(symbol).len() == 0 {
        None
    } else {
        Some(underlying_of(symbol) + seq!['-', 'I'])
    }
}

/// Maps a futures symbol such as `IRCTC26JANFUT` to its product `IRCTC-I`.
pub fn map_symbol(symbol: &str) -> (r: Option<String>)
    ensures
        r is None ==> mapped_symbol(symbol@) is None,
        r matches Some(p) ==> mapped_symbol(symbol@) == Some(p@),
{
    proof { reveal_strlit("FUT"); }
    assert("FUT"@ =~= fut_suffix());
    if !ends_with_text(symbol, "FUT") {
        return None;
    }
    let v = chars_of(symbol);
    let mut end: usize = v.len();
    assert(v@.take(end as int) =~= v@);
    while end >= 3 && v[end - 3] == 'F' && v[end - 2] == 'U' && v[end - 1] == 'T'
        invariant
            end <= v.len(),
            v@ == symbol@,
            strip_fut(symbol@) == strip_fut(v@.take(end as int)),
        decreases end,
    {
        let ghost t = v@.take(end as int);
        assert(t.subrange(t.len() - 3, t.len() as int) =~= fut_suffix());
        assert(t.subrange(0, t.len() - 3) =~= v@.take(end - 3));
        end = end - 3;
    }
    proof {
        let t = v@.take(end as int);
        if t.len() >= 3 {
            if t.subrange(t.len() - 3, t.len() as int) == fut_suffix() {
                assert(t.subrange(t.len() - 3, t.len() as int)[0] == v@[end - 3]);
                assert(t.subrange(t.len() - 3, t.len() as int)[1] == v@[end - 2]);
                assert(t.subrange(t.len() - 3, t.len() as int)[2] == v@[end - 1]);
            }
        }
        assert(strip_fut(t) == t);
    }
    while end > 0 && (('a' <= v[end - 1] && v[end - 1] <= 'z') || ('A' <= v[end - 1] && v[end - 1] <= 'Z'))
        invariant
            end <= v.len(),
            v@ == symbol@,
            trim_end_alpha(strip_fut(symbol@)) == trim_end_alpha(v@.take(end as int)),
        decreases end,
    {
        assert(v@.take(end as int).drop_last() =~= v@.take(end - 1));
        end = end - 1;
    }
    assert(trim_end_alpha(v@.take(end as int)) == v@.take(end as int));
    while end > 0 && '0' <= v[end - 1] && v[end - 1] <= '9'
        invariant
            end <= v.len(),
            v@ == symbol@,
            underlying_of(symbol@) == trim_end_digits(v@.take(end as int)),
        decreases end,
    {
        assert(v@.take(end as int).drop_last() =~= v@.take(end - 1));
        end = end - 1;
    }
    assert(trim_end_digits(v@.take(end as int)) == v@.take(end as int));
    if end == 0 {
        return None;
    }
    proof { reveal_strlit("-I"); }
    let prefix = symbol.substring_char(0, end);
    assert(prefix@ =~= v@.take(end as int));
    let r = String::from_str(prefix).concat("-I");
    assert(r@ =~= underlying_of(symbol@) + seq!['-', 'I']);
    Some(r)
}

/// Each trim leaves a prefix of what it was given.
proof fn lemma_trims_are_prefixes(s: Seq<char>)
    ensures
        strip_fut(s).len() <= s.len() && strip_fut(s) == s.take(strip_fut(s).len() as int),
        trim_end_alpha(s).len() <= s.len() && trim_end_alpha(s) == s.take(trim_end_alpha(s).len() as int),
        trim_end_digits(s).len() <= s.len() && trim_end_digits(s) == s.take(trim_end_digits(s).len() as int),
        trim_end_digits(s).len() > 0 ==> !is_digit_char(trim_end_digits(s).last()),
    decreases s.len(),
{
    if s.len() > 0 {
        lemma_trims_are_prefixes(s.drop_last());
        let p = s.drop_last();
        assert forall|k: int| 0 <= k <= p.len() implies #[trigger] p.take(k) == s.take(k) by {
            assert(p.take(k) =~= s.take(k));
        }
    }
    if ends_with_seq(s, fut_suffix()) {
        let p = s.subrange(0, s.len() - 3);
        lemma_trims_are_prefixes(p);
        assert(p.take(strip_fut(p).len() as int) =~= s.take(strip_fut(p).len() as int));
    }
    assert(s.take(s.len() as int) =~= s);
}

/// A mapped product is a nonempty leading part of a symbol ending in "FUT",
/// followed by "-I", and that part does not end in a digit.
pub proof fn law_mapped_symbol_shape(symbol: Seq<char>)
    ensures
        mapped_symbol(symbol) matches Some(p) ==> {
            let u = underlying_of(symbol);
            &&& ends_with_seq(symbol, fut_suffix())
            &&& p == u + seq!['-', 'I']
            &&& u.len() > 0
            &&& starts_with_seq(symbol, u)
            &&& !is_digit_char(u.last())
        },
{
    let a = strip_fut(symbol);
    let b = trim_end_alpha(a);
    lemma_trims_are_prefixes(symbol);
    lemma_trims_are_prefixes(a);
    lemma_trims_are_prefixes(b);
    let u = trim_end_digits(b);
    assert(u == b.take(u.len() as int));
    assert(b == a.take(b.len() as int));
    assert(a == symbol.take(a.len() as int));
    assert(u =~= symbol.take(u.len() as int));
    assert(symbol.subrange(0, u.len() as int) =~= symbol.take(u.len() as int));
}

/// The part of a received text that holds the JSON object: from its first
/// `{` to its last `}`, when the last comes after the first.
pub open spec fn signal_json_part(text: Seq<char>) -> Option<Seq<char>> {
    match (first_index(text, '{'), last_index(text, '}')) {
        (Some(a), Some(b)) => if b > a {
            Some(text.subrange(a, b + 1))
        } else {
            None
        },
        _ => None,
    }
}

/// Cuts the JSON object out of a received text (see `signal_json_part`).
pub fn signal_json(text: &str) -> (r: Option<String>)
    ensures
        r is None ==> signal_json_part(text@) is None,
        r matches Some(j) ==> signal_json_part(text@) == Some(j@),
{
    let v = chars_of(text);
    let start = match find_char(&v, '{') {
        Some(i) => i,
        None => return None,
    };
    let end = match rfind_char(&v, '}') {
        Some(i) => i,
        None => return None,
    };
    if end <= start {
        return None;
    }
    Some(String::from_str(text.substring_char(start, end + 1)))
}

/// Text around the JSON object is ignored: with no `{` before the object
/// and no `}` after it, a padded text yields the same object as the bare one.
pub proof fn law_signal_padding_ignored(p: Seq<char>, j: Seq<char>, s: Seq<char>)
    requires
        j.len() > 0,
        j[0] == '{',
        j.last() == '}',
        forall|i: int| 0 <= i < p.len() ==> p[i] != '{',
        forall|i: int| 0 <= i < s.len() ==> s[i] != '}',
    ensures
        signal_json_part(p + j + s) == signal_json_part(j),
        signal_json_part(j) == Some(j),
{
    let t = p + j + s;
    let a = p.len() as int;
    let b = (p.len() + j.len() - 1) as int;
    assert(j.len() >= 2) by {
        if j.len() == 1 {
            assert(j[0] == j.last());
        }
    }
    assert(t[a] == '{');
    assert(t[b] == '}');
    assert forall|k: int| 0 <= k < a implies t[k] != '{' by {
        assert(t[k] == p[k]);
    }
    assert forall|k: int| b < k < t.len() implies t[k] != '}' by {
        assert(t[k] == s[k - a - j.len()]);
    }
    lemma_index_unique(t, '{', a);
    lemma_index_unique(t, '}', b);
    lemma_index_unique(j, '{', 0);
    lemma_index_unique(j, '}', j.len() - 1);
    assert(t.subrange(a, b + 1) =~= j);
    assert(j.subrange(0, j.len() as int) =~= j);
}

/// A signal message as the signal feed sends it, with prices in paise.
pub struct SignalMessage {
    pub event_type: String,
    pub symbol: String,
    pub signal_type: String,
    pub price_at_signal: u64,
    pub ltp_at_signal: u64,
    pub lot_size: u32,
}

/// The side a signal type names once uppercased: "BUY" or "SELL".
pub open spec fn side_named(signal_type: Seq<char>) -> Option<SignalSide> {
    side_of_upper(uppercase(signal_type))
}

/// The side an uppercased signal type names.
pub open spec fn side_of_upper(u: Seq<char>) -> Option<SignalSide> {
    if u == seq!['B', 'U', 'Y'] {
        Some(SignalSide::Buy)
    } else if u == seq!['S', 'E', 'L', 'L'] {
        Some(SignalSide::Sell)
    } else {
        None
    }
}

/// The signal a message carries: only "signal" events on a mappable futures
/// symbol with a BUY or SELL type (in any case) carry one.
pub open spec fn message_signal_ok(m: SignalMessage) -> bool {
    message_ok_upper(m, uppercase(m.signal_type@))
}

/// `message_signal_ok`, given the uppercased signal type.
pub open spec fn message_ok_upper(m: SignalMessage, kind_upper: Seq<char>) -> bool {
    &&& m.event_type@ == seq!['s', 'i', 'g', 'n', 'a', 'l']
    &&& mapped_symbol(m.symbol@) is Some
    &&& side_of_upper(kind_upper) is Some
}

/// Builds the signal a message carries (see `message_signal_ok`): the mapped
/// product, the signal price, the LTP at signal as target, the lot size.
pub fn signal_from_message(m: SignalMessage) -> (r: Option<Signal>)
    ensures
        r is Some <==> message_signal_ok(m),
        r matches Some(s) ==> {
            &&& Some(s.product@) == mapped_symbol(m.symbol@)
            &&& Some(s.side) == side_named(m.signal_type@)
            &&& s.price == m.price_at_signal
            &&& s.target == m.ltp_at_signal
            &&& s.trade_qty == m.lot_size
        },
{
    let kind = to_uppercase(m.signal_type.as_str());
    signal_from_parts(m, kind.as_str())
}

/// `signal_from_message`, given the uppercased signal type.
pub fn signal_from_parts(m: SignalMessage, kind_upper: &str) -> (r: Option<Signal>)
    ensures
        r is Some <==> message_ok_upper(m, kind_upper@),
        r matches Some(s) ==> {
            &&& Some(s.product@) == mapped_symbol(m.symbol@)
            &&& Some(s.side) == side_of_upper(kind_upper@)
            &&& s.price == m.price_at_signal
            &&& s.target == m.ltp_at_signal
            &&& s.trade_qty == m.lot_size
        },
{
    proof {
        reveal_strlit("signal");
        reveal_strlit("BUY");
        reveal_strlit("SELL");
    }
    assert("signal"@ =~= seq!['s', 'i', 'g', 'n', 'a', 'l']);
    assert("BUY"@ =~= seq!['B', 'U', 'Y']);
    assert("SELL"@ =~= seq!['S', 'E', 'L', 'L']);
    if m.event_type != String::from_str("signal") {
        return None;
    }
    let product = match map_symbol(m.symbol.as_str()) {
        Some(p) => p,
        None => return None,
    };
    let kind = String::from_str(kind_upper);
    let side = if kind == String::from_str("BUY") {
        SignalSide::Buy
    } else if kind == String::from_str("SELL") {
        SignalSide::Sell
    } else {
        return None;
    };
    Some(Signal {
        product,
        price: m.price_at_signal,
        target: m.ltp_at_signal,
        side,
        trade_qty: m.lot_size,
    })
}

} // verus!
