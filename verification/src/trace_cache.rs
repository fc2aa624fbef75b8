//! The on-disk cache of complete replays: where it lives and what it holds.
use crate::text::{
    decimal, digit_char, is_hex_char, is_whitespace, push_char, push_decimal, push_str, starts_with,
    trim, trim_end_spec, trim_spec, trim_start_spec,
};
use crate::types::{ExecutionResultInfo, StepSnapshot};
use vstd::prelude::*;
use vstd::string::*;

verus! {

/// The contents of one trace cache file.
pub struct TraceCacheFile {
    pub snapshots: Vec<StepSnapshot>,
    pub result: Option<ExecutionResultInfo>,
}

/// `s` with every leading `0x` removed (`str::trim_start_matches("0x")`).
pub open spec fn strip_all_0x(s: Seq<char>) -> Seq<char>
    decreases s.len(),
{
    if s.len() >= 2 && s[0] == '0' && s[1] == 'x' {
        strip_all_0x(s.subrange(2, s.len() as int))
    } else {
        s
    }
}

/// `cache/trace_<chain>_<block>_<hash>.json`, with the chain id in decimal or
/// `unknown`, and the hash trimmed and without leading `0x`.
pub open spec fn trace_cache_path_spec(tx_hash: Seq<char>, chain_id: Option<u64>, block_number: u64) -> Seq<
    char,
> {
    let chain = match chain_id {
        Some(c) => decimal(c as nat),
        None => "unknown"@,
    };
    "cache/trace_"@ + chain + seq!['_'] + decimal(block_number as nat) + seq!['_'] + strip_all_0x(
        trim_spec(tx_hash),
    ) + ".json"@
}

/// `str::trim_start_matches("0x")`.
pub fn strip_all_0x_exec(s: &str) -> (r: &str)
    ensures
        r@ == strip_all_0x(s@),
{
    let mut t = s;
    while starts_with(t, "0x")
        invariant
            strip_all_0x(t@) == strip_all_0x(s@),
        decreases t@.len(),
    {
        proof {
            reveal_strlit("0x");
            assert(t@.subrange(0, 2)[0] == t@[0]);
            assert(t@.subrange(0, 2)[1] == t@[1]);
        }
        let n = t.unicode_len();
        t = t.substring_char(2, n);
    }
    proof {
        reveal_strlit("0x");
        if t@.len() >= 2 && t@[0] == '0' && t@[1] == 'x' {
            assert(t@.subrange(0, 2) =~= "0x"@);
        }
    }
    t
}

/// The path of the trace cache file of a transaction.
pub fn trace_cache_path(tx_hash: &str, chain_id: Option<u64>, block_number: u64) -> (r: String)
    ensures
        r@ == trace_cache_path_spec(tx_hash@, chain_id, block_number),
{
    let mut r = String::from_str("cache/trace_");
    match chain_id {
        Some(c) => push_decimal(&mut r, c),
        None => push_str(&mut r, "unknown"),
    }
    push_char(&mut r, '_');
    push_decimal(&mut r, block_number);
    push_char(&mut r, '_');
    let hash = strip_all_0x_exec(trim(tx_hash));
    push_str(&mut r, hash);
    push_str(&mut r, ".json");
    proof {
        let chain = match chain_id {
            Some(c) => decimal(c as nat),
            None => "unknown"@,
        };
        assert(r@ =~= "cache/trace_"@ + chain + seq!['_'] + decimal(block_number as nat) + seq!['_']
            + strip_all_0x(trim_spec(tx_hash@)) + ".json"@);
    }
    r
}

/// Whether `s` holds no `_`.
pub open spec fn no_underscore(s: Seq<char>) -> bool {
    forall|i: int| 0 <= i < s.len() ==> #[trigger] s[i] != '_'
}

/// Whether every character of `s` is a hexadecimal digit.
pub open spec fn hex_text(s: Seq<char>) -> bool {
    forall|i: int| 0 <= i < s.len() ==> is_hex_char(#[trigger] s[i])
}

/// The chain part of a trace cache path.
pub open spec fn chain_text(chain_id: Option<u64>) -> Seq<char> {
    match chain_id {
        Some(c) => decimal(c as nat),
        None => "unknown"@,
    }
}

proof fn lemma_split_at_underscore(x1: Seq<char>, y1: Seq<char>, x2: Seq<char>, y2: Seq<char>)
    requires
        no_underscore(x1),
        no_underscore(x2),
        x1 + seq!['_'] + y1 == x2 + seq!['_'] + y2,
    ensures
        x1 == x2,
        y1 == y2,
{
    let l = x1 + seq!['_'] + y1;
    let r = x2 + seq!['_'] + y2;
    if x1.len() < x2.len() {
        assert(l[x1.len() as int] == '_');
        assert(r[x1.len() as int] == x2[x1.len() as int]);
    } else if x1.len() > x2.len() {
        assert(r[x2.len() as int] == '_');
        assert(l[x2.len() as int] == x1[x2.len() as int]);
    }
    assert forall|i: int| 0 <= i < x1.len() implies x1[i] == x2[i] by {
        assert(l[i] == x1[i]);
        assert(r[i] == x2[i]);
    }
    assert(x1 =~= x2);
    assert(l.len() == r.len());
    assert(y1.len() == y2.len());
    assert forall|i: int| 0 <= i < y1.len() implies y1[i] == y2[i] by {
        assert(l[x1.len() + 1 + i] == y1[i]);
        assert(r[x2.len() + 1 + i] == y2[i]);
    }
    assert(y1 =~= y2);
}

proof fn lemma_decimal_digits(n: nat)
    ensures
        decimal(n).len() >= 1,
        n >= 10 ==> decimal(n).len() >= 2,
        forall|i: int| 0 <= i < decimal(n).len() ==> '0' <= #[trigger] decimal(n)[i] <= '9',
    decreases n,
{
    if n >= 10 {
        lemma_decimal_digits(n / 10);
        let d = decimal(n / 10);
        assert forall|i: int| 0 <= i < decimal(n).len() implies '0' <= #[trigger] decimal(n)[i]
            <= '9' by {
            if i < d.len() {
                assert(decimal(n)[i] == d[i]);
            }
        }
    }
}

proof fn lemma_digit_char_injective(d: int, e: int)
    requires
        0 <= d < 10,
        0 <= e < 10,
        digit_char(d) == digit_char(e),
    ensures
        d == e,
{
    assert(digit_char(d) as u32 == d + 48);
    assert(digit_char(e) as u32 == e + 48);
}

proof fn lemma_decimal_injective(n: nat, m: nat)
    requires
        decimal(n) == decimal(m),
    ensures
        n == m,
    decreases n,
{
    lemma_decimal_digits(n);
    lemma_decimal_digits(m);
    if n >= 10 && m >= 10 {
        assert(decimal(n).drop_last() =~= decimal(n / 10));
        assert(decimal(m).drop_last() =~= decimal(m / 10));
        lemma_decimal_injective(n / 10, m / 10);
        assert(decimal(n).last() == digit_char((n % 10) as int));
        assert(decimal(m).last() == digit_char((m % 10) as int));
        lemma_digit_char_injective((n % 10) as int, (m % 10) as int);
    } else if n < 10 && m < 10 {
        assert(decimal(n) == seq![digit_char(n as int)]);
        assert(decimal(m) == seq![digit_char(m as int)]);
        assert(decimal(n)[0] == digit_char(n as int));
        assert(decimal(m)[0] == digit_char(m as int));
        lemma_digit_char_injective(n as int, m as int);
    }
}

proof fn lemma_chain_text(chain_id: Option<u64>)
    ensures
        no_underscore(chain_text(chain_id)),
{
    reveal_strlit("unknown");
    if let Some(c) = chain_id {
        lemma_decimal_digits(c as nat);
    }
}

proof fn lemma_chain_text_injective(c1: Option<u64>, c2: Option<u64>)
    requires
        chain_text(c1) == chain_text(c2),
    ensures
        c1 == c2,
{
    reveal_strlit("unknown");
    match (c1, c2) {
        (Some(a), Some(b)) => lemma_decimal_injective(a as nat, b as nat),
        (Some(a), None) => {
            lemma_decimal_digits(a as nat);
            assert(chain_text(c1)[0] == 'u');
        },
        (None, Some(b)) => {
            lemma_decimal_digits(b as nat);
            assert(chain_text(c2)[0] == 'u');
        },
        (None, None) => {},
    }
}

proof fn lemma_hex_text_is_kept(h: Seq<char>)
    requires
        hex_text(h),
    ensures
        strip_all_0x(trim_spec(h)) == h,
        no_underscore(h),
{
    if h.len() > 0 {
        assert(!is_whitespace(h[0]));
        assert(trim_start_spec(h) == h);
        assert(!is_whitespace(h.last()));
        assert(trim_end_spec(h) == h);
    }
    if h.len() >= 2 {
        assert(is_hex_char(h[1]));
    }
}

/// What follows `cache/trace_` in a trace cache path.
pub open spec fn path_tail(h: Seq<char>, chain_id: Option<u64>, block_number: u64) -> Seq<char> {
    chain_text(chain_id) + seq!['_'] + (decimal(block_number as nat) + seq!['_'] + (strip_all_0x(
        trim_spec(h),
    ) + ".json"@))
}

proof fn lemma_path_shape(h: Seq<char>, chain_id: Option<u64>, block_number: u64)
    ensures
        trace_cache_path_spec(h, chain_id, block_number) == "cache/trace_"@ + path_tail(
            h,
            chain_id,
            block_number,
        ),
{
    assert(trace_cache_path_spec(h, chain_id, block_number) =~= "cache/trace_"@ + path_tail(
        h,
        chain_id,
        block_number,
    ));
}

proof fn lemma_same_prefix(pre: Seq<char>, a: Seq<char>, b: Seq<char>)
    requires
        pre + a == pre + b,
    ensures
        a == b,
{
    assert(a =~= (pre + a).subrange(pre.len() as int, (pre + a).len() as int));
    assert(b =~= (pre + b).subrange(pre.len() as int, (pre + b).len() as int));
}

proof fn lemma_same_suffix(a: Seq<char>, b: Seq<char>, suf: Seq<char>)
    requires
        a + suf == b + suf,
    ensures
        a == b,
{
    assert(a =~= (a + suf).subrange(0, a.len() as int));
    assert(b =~= (b + suf).subrange(0, b.len() as int));
}

proof fn lemma_tail_one_to_one(h1: Seq<char>, c1: Option<u64>, b1: u64, h2: Seq<char>, c2: Option<u64>, b2: u64)
    requires
        hex_text(h1),
        hex_text(h2),
        path_tail(h1, c1, b1) == path_tail(h2, c2, b2),
    ensures
        h1 == h2,
        c1 == c2,
        b1 == b2,
{
    lemma_hex_text_is_kept(h1);
    lemma_hex_text_is_kept(h2);
    lemma_chain_text(c1);
    lemma_chain_text(c2);
    let j = ".json"@;
    let d1 = decimal(b1 as nat);
    let d2 = decimal(b2 as nat);
    lemma_split_at_underscore(chain_text(c1), d1 + seq!['_'] + (h1 + j), chain_text(c2), d2 + seq![
        '_',
    ] + (h2 + j));
    lemma_chain_text_injective(c1, c2);
    lemma_decimal_digits(b1 as nat);
    lemma_decimal_digits(b2 as nat);
    lemma_split_at_underscore(d1, h1 + j, d2, h2 + j);
    lemma_decimal_injective(b1 as nat, b2 as nat);
    lemma_same_suffix(h1, h2, j);
}

/// Trace cache paths are one to one: two hashes written as hexadecimal digits
/// share a path exactly when hash, chain and block are all the same.
pub proof fn lemma_trace_path_one_to_one(
    h1: Seq<char>,
    c1: Option<u64>,
    b1: u64,
    h2: Seq<char>,
    c2: Option<u64>,
    b2: u64,
)
    requires
        hex_text(h1),
        hex_text(h2),
    ensures
        trace_cache_path_spec(h1, c1, b1) == trace_cache_path_spec(h2, c2, b2) <==> (h1 == h2 && c1
            == c2 && b1 == b2),
{
    lemma_path_shape(h1, c1, b1);
    lemma_path_shape(h2, c2, b2);
    if trace_cache_path_spec(h1, c1, b1) == trace_cache_path_spec(h2, c2, b2) {
        lemma_same_prefix("cache/trace_"@, path_tail(h1, c1, b1), path_tail(h2, c2, b2));
        lemma_tail_one_to_one(h1, c1, b1, h2, c2, b2);
    }
}

/// A trace cache path does not change with surrounding whitespace or a `0x`
/// prefix on the hash.
pub proof fn lemma_trace_path_ignores_spelling(h: Seq<char>, chain_id: Option<u64>, block_number: u64)
    requires
        hex_text(h),
    ensures
        trace_cache_path_spec(seq![' ', '0', 'x'] + h + seq![' '], chain_id, block_number)
            == trace_cache_path_spec(h, chain_id, block_number),
        trace_cache_path_spec(seq!['0', 'x'] + h, chain_id, block_number) == trace_cache_path_spec(
            h,
            chain_id,
            block_number,
        ),
{
    lemma_hex_text_is_kept(h);
    let q = seq!['0', 'x'] + h;
    let p = seq![' ', '0', 'x'] + h + seq![' '];
    assert(p.drop_first() =~= q + seq![' ']);
    assert(trim_start_spec(q + seq![' ']) == q + seq![' ']);
    assert(trim_start_spec(p) == q + seq![' ']);
    assert((q + seq![' ']).drop_last() =~= q);
    assert(q.last() == (if h.len() > 0 { h.last() } else { 'x' }));
    assert(trim_end_spec(q) == q);
    assert(trim_spec(p) == q);
    assert(trim_start_spec(q) == q);
    assert(trim_spec(q) == q);
    assert(q.subrange(2, q.len() as int) =~= h);
    assert(strip_all_0x(q) == strip_all_0x(h));
}

} // verus!
