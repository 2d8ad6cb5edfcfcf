//! Device path resolver: pure functions mapping a frontend identity to the
//! paths of its control files under the DVB device tree.

use vstd::prelude::*;
use crate::ids::FrontendId;

verus! {

/// The character standing for a single decimal digit.
pub open spec fn spec_digit_char(d: nat) -> char {
    if d == 0 {
        '0'
    } else if d == 1 {
        '1'
    } else if d == 2 {
        '2'
    } else if d == 3 {
        '3'
    } else if d == 4 {
        '4'
    } else if d == 5 {
        '5'
    } else if d == 6 {
        '6'
    } else if d == 7 {
        '7'
    } else if d == 8 {
        '8'
    } else {
        '9'
    }
}

/// The decimal rendering of a natural number, most significant digit first,
/// with no leading zeros (a single '0' for zero).
pub open spec fn spec_decimal(n: nat) -> Seq<char>
    decreases n,
{
    if n < 10 {
        seq![spec_digit_char(n)]
    } else {
        spec_decimal(n / 10) + seq![spec_digit_char(n % 10)]
    }
}

/// The root of the DVB device namespace.
pub open spec fn spec_base_path() -> Seq<char> {
    "/dev/dvb"@
}

pub open spec fn spec_adapter_path(id: u16) -> Seq<char> {
    spec_base_path() + "/adapter"@ + spec_decimal(id as nat)
}

pub open spec fn spec_frontend_path(fei: FrontendId) -> Seq<char> {
    spec_adapter_path(fei.adapter) + "/frontend"@ + spec_decimal(fei.frontend as nat)
}

pub open spec fn spec_demux_path(fei: FrontendId) -> Seq<char> {
    spec_adapter_path(fei.adapter) + "/demux"@ + spec_decimal(fei.frontend as nat)
}

pub open spec fn spec_dvr_path(fei: FrontendId) -> Seq<char> {
    spec_adapter_path(fei.adapter) + "/dvr"@ + spec_decimal(fei.frontend as nat)
}

/// The single-character string for one decimal digit.
fn digit_str(d: u16) -> (r: &'static str)
    requires
        d < 10,
    ensures
        r@ == seq![spec_digit_char(d as nat)],
{
    proof {
        reveal_strlit("0");
        reveal_strlit("1");
        reveal_strlit("2");
        reveal_strlit("3");
        reveal_strlit("4");
        reveal_strlit("5");
        reveal_strlit("6");
        reveal_strlit("7");
        reveal_strlit("8");
        reveal_strlit("9");
    }
    let r: &'static str = if d == 0 {
        "0"
    } else if d == 1 {
        "1"
    } else if d == 2 {
        "2"
    } else if d == 3 {
        "3"
    } else if d == 4 {
        "4"
    } else if d == 5 {
        "5"
    } else if d == 6 {
        "6"
    } else if d == 7 {
        "7"
    } else if d == 8 {
        "8"
    } else {
        "9"
    };
    proof {
        assert(r@ =~= seq![spec_digit_char(d as nat)]);
    }
    r
}

/// Append the decimal rendering of `n` to `s`.
fn push_decimal(s: &mut String, n: u16)
    ensures
        final(s)@ == old(s)@ + spec_decimal(n as nat),
    decreases n,
{
    if n >= 10 {
        push_decimal(s, n / 10);
        let d = digit_str(n % 10);
        s.append(d);
        proof {
            assert(s@ =~= old(s)@ + spec_decimal(n as nat));
        }
    } else {
        let d = digit_str(n);
        s.append(d);
    }
}

/// The path in the filesystem to the DVB related special files.
pub fn dvb_base_path() -> (r: String)
    ensures
        r@ == spec_base_path(),
{
    String::from_str("/dev/dvb")
}

/// Return the path to the adapter directory for a given adapter.
pub fn adapter_path(id: u16) -> (r: String)
    ensures
        r@ == spec_adapter_path(id),
{
    let mut s = String::from_str("/dev/dvb");
    s.append("/adapter");
    push_decimal(&mut s, id);
    proof {
        assert(s@ =~= spec_adapter_path(id));
    }
    s
}

/// Return the path to the special file for a given frontend.
pub fn frontend_path(fei: &FrontendId) -> (r: String)
    ensures
        r@ == spec_frontend_path(*fei),
{
    let mut s = adapter_path(fei.adapter);
    s.append("/frontend");
    push_decimal(&mut s, fei.frontend);
    proof {
        assert(s@ =~= spec_frontend_path(*fei));
    }
    s
}

/// Return the path to the special file of the demux for a given frontend.
pub fn demux_path(fei: &FrontendId) -> (r: String)
    ensures
        r@ == spec_demux_path(*fei),
{
    let mut s = adapter_path(fei.adapter);
    s.append("/demux");
    push_decimal(&mut s, fei.frontend);
    proof {
        assert(s@ =~= spec_demux_path(*fei));
    }
    s
}

/// Return the path to the special file of the data for a given frontend.
pub fn dvr_path(fei: &FrontendId) -> (r: String)
    ensures
        r@ == spec_dvr_path(*fei),
{
    let mut s = adapter_path(fei.adapter);
    s.append("/dvr");
    push_decimal(&mut s, fei.frontend);
    proof {
        assert(s@ =~= spec_dvr_path(*fei));
    }
    s
}

proof fn lemma_decimal_no_slash(n: nat)
    ensures
        spec_decimal(n).len() >= 1,
        forall|i: int| 0 <= i < spec_decimal(n).len() ==> spec_decimal(n)[i] != '/',
    decreases n,
{
    if n >= 10 {
        lemma_decimal_no_slash(n / 10);
        assert forall|i: int| 0 <= i < spec_decimal(n).len() implies spec_decimal(n)[i]
            != '/' by {
            if i < spec_decimal(n / 10).len() {
                assert(spec_decimal(n)[i] == spec_decimal(n / 10)[i]);
            }
        }
    }
}

proof fn lemma_decimal_injective(m: nat, n: nat)
    requires
        spec_decimal(m) == spec_decimal(n),
    ensures
        m == n,
    decreases m,
{
    lemma_decimal_no_slash(m);
    lemma_decimal_no_slash(n);
    if m < 10 && n < 10 {
        assert(seq![spec_digit_char(m)][0] == spec_digit_char(m));
        assert(seq![spec_digit_char(n)][0] == spec_digit_char(n));
        assert(spec_decimal(m)[0] == spec_decimal(n)[0]);
        assert(spec_digit_char(m) == spec_digit_char(n));
        assert(m == n);
    } else if m >= 10 && n >= 10 {
        let dm = spec_decimal(m / 10);
        let dn = spec_decimal(n / 10);
        lemma_decimal_no_slash(m / 10);
        lemma_decimal_no_slash(n / 10);
        assert(spec_decimal(m).len() == dm.len() + 1);
        assert(spec_decimal(n).len() == dn.len() + 1);
        assert(dm =~= dn) by {
            assert forall|i: int| 0 <= i < dm.len() implies dm[i] == dn[i] by {
                assert(dm[i] == spec_decimal(m)[i]);
                assert(dn[i] == spec_decimal(n)[i]);
            }
        }
        lemma_decimal_injective(m / 10, n / 10);
        assert(spec_decimal(m)[dm.len() as int] == spec_digit_char(m % 10));
        assert(spec_decimal(n)[dn.len() as int] == spec_digit_char(n % 10));
        assert(spec_digit_char(m % 10) == spec_digit_char(n % 10));
        assert(m % 10 == n % 10);
        assert(m == 10 * (m / 10) + m % 10);
        assert(n == 10 * (n / 10) + n % 10);
        assert(m == n);
    } else if m < 10 {
        lemma_decimal_no_slash(n / 10);
        assert(spec_decimal(n).len() == spec_decimal(n / 10).len() + 1);
        assert(spec_decimal(m).len() == 1);
        assert(false);
    } else {
        lemma_decimal_no_slash(m / 10);
        assert(spec_decimal(m).len() == spec_decimal(m / 10).len() + 1);
        assert(spec_decimal(n).len() == 1);
        assert(false);
    }
}

proof fn lemma_strip_prefix(p: Seq<char>, x: Seq<char>, y: Seq<char>)
    requires
        p + x == p + y,
    ensures
        x == y,
{
    assert((p + x).len() == p.len() + x.len());
    assert((p + y).len() == p.len() + y.len());
    assert(x.len() == y.len());
    assert(x =~= y) by {
        assert forall|i: int| 0 <= i < x.len() implies x[i] == y[i] by {
            assert((p + x)[p.len() + i] == x[i]);
            assert((p + y)[p.len() + i] == y[i]);
        }
    }
}

proof fn lemma_split_at_slash(a1: Seq<char>, b1: Seq<char>, a2: Seq<char>, b2: Seq<char>)
    requires
        forall|i: int| 0 <= i < a1.len() ==> a1[i] != '/',
        forall|i: int| 0 <= i < a2.len() ==> a2[i] != '/',
        b1.len() > 0,
        b1[0] == '/',
        b2.len() > 0,
        b2[0] == '/',
        a1 + b1 == a2 + b2,
    ensures
        a1 == a2,
        b1 == b2,
{
    assert((a1 + b1).len() == a1.len() + b1.len());
    assert((a2 + b2).len() == a2.len() + b2.len());
    if a1.len() < a2.len() {
        assert((a1 + b1)[a1.len() as int] == b1[0]);
        assert((a2 + b2)[a1.len() as int] == a2[a1.len() as int]);
        assert(false);
    }
    if a2.len() < a1.len() {
        assert((a2 + b2)[a2.len() as int] == b2[0]);
        assert((a1 + b1)[a2.len() as int] == a1[a2.len() as int]);
        assert(false);
    }
    assert(a1 =~= a2) by {
        assert forall|i: int| 0 <= i < a1.len() implies a1[i] == a2[i] by {
            assert((a1 + b1)[i] == a1[i]);
            assert((a2 + b2)[i] == a2[i]);
        }
    }
    assert(b1 =~= b2) by {
        assert forall|i: int| 0 <= i < b1.len() implies b1[i] == b2[i] by {
            assert((a1 + b1)[a1.len() + i] == b1[i]);
            assert((a2 + b2)[a2.len() + i] == b2[i]);
        }
    }
}

/// For fixed base path, the adapter path determines the adapter id: two
/// distinct adapters never share an adapter directory.
pub proof fn lemma_adapter_path_injective(a1: u16, a2: u16)
    requires
        spec_adapter_path(a1) == spec_adapter_path(a2),
    ensures
        a1 == a2,
{
    let p = spec_base_path() + "/adapter"@;
    assert(spec_adapter_path(a1) =~= p + spec_decimal(a1 as nat));
    assert(spec_adapter_path(a2) =~= p + spec_decimal(a2 as nat));
    lemma_strip_prefix(p, spec_decimal(a1 as nat), spec_decimal(a2 as nat));
    lemma_decimal_injective(a1 as nat, a2 as nat);
}

proof fn lemma_adapter_mid_injective(mid: Seq<char>, x: FrontendId, y: FrontendId)
    requires
        mid.len() > 0,
        mid[0] == '/',
        spec_adapter_path(x.adapter) + mid + spec_decimal(x.frontend as nat)
            == spec_adapter_path(y.adapter) + mid + spec_decimal(y.frontend as nat),
    ensures
        x == y,
{
    let p = spec_base_path() + "/adapter"@;
    let ax = spec_decimal(x.adapter as nat);
    let ay = spec_decimal(y.adapter as nat);
    let fx = spec_decimal(x.frontend as nat);
    let fy = spec_decimal(y.frontend as nat);
    assert(spec_adapter_path(x.adapter) + mid + fx =~= p + (ax + (mid + fx)));
    assert(spec_adapter_path(y.adapter) + mid + fy =~= p + (ay + (mid + fy)));
    lemma_strip_prefix(p, ax + (mid + fx), ay + (mid + fy));
    lemma_decimal_no_slash(x.adapter as nat);
    lemma_decimal_no_slash(y.adapter as nat);
    assert((mid + fx)[0] == '/');
    assert((mid + fy)[0] == '/');
    lemma_split_at_slash(ax, mid + fx, ay, mid + fy);
    lemma_decimal_injective(x.adapter as nat, y.adapter as nat);
    lemma_strip_prefix(mid, fx, fy);
    lemma_decimal_injective(x.frontend as nat, y.frontend as nat);
}

/// The resolver is injective in its id argument: two distinct frontend
/// identities never resolve to the same frontend path.
pub proof fn lemma_frontend_path_injective(x: FrontendId, y: FrontendId)
    requires
        spec_frontend_path(x) == spec_frontend_path(y),
    ensures
        x == y,
{
    reveal_strlit("/frontend");
    lemma_adapter_mid_injective("/frontend"@, x, y);
}

/// The resolver is injective in its id argument: two distinct frontend
/// identities never resolve to the same demux path.
pub proof fn lemma_demux_path_injective(x: FrontendId, y: FrontendId)
    requires
        spec_demux_path(x) == spec_demux_path(y),
    ensures
        x == y,
{
    reveal_strlit("/demux");
    lemma_adapter_mid_injective("/demux"@, x, y);
}

/// The resolver is injective in its id argument: two distinct frontend
/// identities never resolve to the same dvr path.
pub proof fn lemma_dvr_path_injective(x: FrontendId, y: FrontendId)
    requires
        spec_dvr_path(x) == spec_dvr_path(y),
    ensures
        x == y,
{
    reveal_strlit("/dvr");
    lemma_adapter_mid_injective("/dvr"@, x, y);
}

} // verus!
