//! Which IPv4 address the overlay shows: active adapters' addresses,
//! preferring `10.0.x.x`, then `192.168.x.x`, then the first one found.

use vstd::prelude::*;
use crate::text::{
    chars_eq, chars_of, decimal, decimal_chars, digits_value, extend_chars, lemma_decimal,
    lemma_digits_exclude, lemma_split_on_prefix, lemma_split_on_whole, split_chars, split_on,
    string_from_chars, views_of,
};

verus! {

/// Shown when no address qualifies.
pub const NO_ADDRESS: &'static str = "N/A";

/// `IfOperStatusUp`: the adapter is up.
pub const OPER_STATUS_UP: u32 = 1;

/// What the overlay reads of one network adapter.
pub struct AdapterInfo {
    /// `OperStatus` as reported by `GetAdaptersAddresses`.
    pub oper_status: u32,
    /// The adapter's unicast IPv4 addresses, octets in network order.
    pub ipv4: Vec<(u8, u8, u8, u8)>,
}

/// The text of an address: its dot-separated dot-free components.
pub open spec fn ip_parts(ip: Seq<char>) -> Seq<Seq<char>> {
    split_on(ip, '.')
}

/// Four components, the first two `10` and `0`.
pub open spec fn is_10_0_net(ip: Seq<char>) -> bool {
    let p = ip_parts(ip);
    p.len() == 4 && p[0] == "10"@ && p[1] == "0"@
}

/// Four components, the first two `192` and `168`.
pub open spec fn is_192_168_net(ip: Seq<char>) -> bool {
    let p = ip_parts(ip);
    p.len() == 4 && p[0] == "192"@ && p[1] == "168"@
}

/// The address texts of a candidate list.
pub open spec fn ip_texts(ips: Seq<(String, u8)>) -> Seq<Seq<char>> {
    Seq::new(ips.len(), |i: int| ips[i].0@)
}

/// The first index at or after `from` of a `10.0.x.x` address.
pub open spec fn first_10_0_net(s: Seq<Seq<char>>, from: int) -> Option<int>
    decreases s.len() - from,
{
    if from < 0 || from >= s.len() {
        None
    } else if is_10_0_net(s[from]) {
        Some(from)
    } else {
        first_10_0_net(s, from + 1)
    }
}

/// The first index at or after `from` of a `192.168.x.x` address.
pub open spec fn first_192_168_net(s: Seq<Seq<char>>, from: int) -> Option<int>
    decreases s.len() - from,
{
    if from < 0 || from >= s.len() {
        None
    } else if is_192_168_net(s[from]) {
        Some(from)
    } else {
        first_192_168_net(s, from + 1)
    }
}

/// The address shown: the first `10.0.x.x`, else the first `192.168.x.x`,
/// else the first address, else `N/A`.
pub open spec fn spec_select_ip(ips: Seq<Seq<char>>) -> Seq<char> {
    match first_10_0_net(ips, 0) {
        Some(i) => ips[i],
        None => match first_192_168_net(ips, 0) {
            Some(i) => ips[i],
            None => if ips.len() > 0 {
                ips[0]
            } else {
                NO_ADDRESS@
            },
        },
    }
}

proof fn lemma_first_10_0_net(s: Seq<Seq<char>>, from: int)
    requires
        0 <= from,
    ensures
        first_10_0_net(s, from) matches Some(k) ==> from <= k < s.len() && is_10_0_net(s[k]),
        first_10_0_net(s, from) is None ==> forall|k: int| from <= k < s.len() ==> !is_10_0_net(#[trigger] s[k]),
    decreases s.len() - from,
{
    if from < s.len() && !is_10_0_net(s[from]) {
        lemma_first_10_0_net(s, from + 1);
    }
}

proof fn lemma_first_192_168_net(s: Seq<Seq<char>>, from: int)
    requires
        0 <= from,
    ensures
        first_192_168_net(s, from) matches Some(k) ==> from <= k < s.len() && is_192_168_net(s[k]),
        first_192_168_net(s, from) is None ==> forall|k: int|
            from <= k < s.len() ==> !is_192_168_net(#[trigger] s[k]),
    decreases s.len() - from,
{
    if from < s.len() && !is_192_168_net(s[from]) {
        lemma_first_192_168_net(s, from + 1);
    }
}

proof fn lemma_first_10_0_net_at(s: Seq<Seq<char>>, from: int, k: int)
    requires
        0 <= from <= k < s.len(),
        is_10_0_net(s[k]),
        forall|j: int| from <= j < k ==> !is_10_0_net(#[trigger] s[j]),
    ensures
        first_10_0_net(s, from) == Some(k),
    decreases k - from,
{
    if from < k {
        lemma_first_10_0_net_at(s, from + 1, k);
    }
}

proof fn lemma_first_192_168_net_at(s: Seq<Seq<char>>, from: int, k: int)
    requires
        0 <= from <= k < s.len(),
        is_192_168_net(s[k]),
        forall|j: int| from <= j < k ==> !is_192_168_net(#[trigger] s[j]),
    ensures
        first_192_168_net(s, from) == Some(k),
    decreases k - from,
{
    if from < k {
        lemma_first_192_168_net_at(s, from + 1, k);
    }
}

/// Law: the shown address is the candidate at the smallest index that is a
/// `10.0.x.x` address; without one, the candidate at the smallest index that
/// is a `192.168.x.x` address; without either, the first candidate.
pub proof fn lemma_select_ip_first_match(ips: Seq<Seq<char>>, k: int)
    requires
        0 <= k < ips.len(),
    ensures
        is_10_0_net(ips[k]) && (forall|j: int| 0 <= j < k ==> !is_10_0_net(#[trigger] ips[j]))
            ==> spec_select_ip(ips) == ips[k],
        (forall|j: int| 0 <= j < ips.len() ==> !is_10_0_net(#[trigger] ips[j])) && is_192_168_net(
            ips[k],
        ) && (forall|j: int| 0 <= j < k ==> !is_192_168_net(#[trigger] ips[j]))
            ==> spec_select_ip(ips) == ips[k],
        (forall|j: int| 0 <= j < ips.len() ==> !is_10_0_net(#[trigger] ips[j]) && !is_192_168_net(
            ips[j],
        )) ==> spec_select_ip(ips) == ips[0],
{
    if is_10_0_net(ips[k]) && (forall|j: int| 0 <= j < k ==> !is_10_0_net(#[trigger] ips[j])) {
        lemma_first_10_0_net_at(ips, 0, k);
    }
    lemma_first_10_0_net(ips, 0);
    lemma_first_192_168_net(ips, 0);
    if (forall|j: int| 0 <= j < ips.len() ==> !is_10_0_net(#[trigger] ips[j])) && is_192_168_net(
        ips[k],
    ) && (forall|j: int| 0 <= j < k ==> !is_192_168_net(#[trigger] ips[j])) {
        lemma_first_192_168_net_at(ips, 0, k);
    }
}

/// Law: a `10.0.x.x` address wins over everything else, a `192.168.x.x`
/// address over the rest; without candidates `N/A` is shown, otherwise
/// always one of the candidates.
pub proof fn lemma_select_ip_priority(ips: Seq<Seq<char>>)
    ensures
        (exists|i: int| 0 <= i < ips.len() && is_10_0_net(#[trigger] ips[i])) ==> is_10_0_net(
            spec_select_ip(ips),
        ),
        (forall|i: int| 0 <= i < ips.len() ==> !is_10_0_net(#[trigger] ips[i])) && (exists|i: int|
            0 <= i < ips.len() && is_192_168_net(#[trigger] ips[i])) ==> is_192_168_net(
            spec_select_ip(ips),
        ),
        ips.len() == 0 ==> spec_select_ip(ips) == NO_ADDRESS@,
        ips.len() > 0 ==> ips.contains(spec_select_ip(ips)),
{
    lemma_first_10_0_net(ips, 0);
    lemma_first_192_168_net(ips, 0);
    if ips.len() > 0 {
        match first_10_0_net(ips, 0) {
            Some(k) => assert(ips[k] == spec_select_ip(ips)),
            None => match first_192_168_net(ips, 0) {
                Some(k) => assert(ips[k] == spec_select_ip(ips)),
                None => assert(ips[0] == spec_select_ip(ips)),
            },
        }
    }
}

/// The dotted text of an address splits into its four decimal octets.
pub proof fn lemma_ipv4_text_parts(a: u8, b: u8, c: u8, d: u8)
    ensures
        ip_parts(spec_ipv4_text(a, b, c, d)) == seq![
            decimal(a as nat),
            decimal(b as nat),
            decimal(c as nat),
            decimal(d as nat),
        ],
{
    reveal_strlit(".");
    let (da, db, dc, dd) = (decimal(a as nat), decimal(b as nat), decimal(c as nat), decimal(d as nat));
    lemma_decimal(a as nat);
    lemma_decimal(b as nat);
    lemma_decimal(c as nat);
    lemma_decimal(d as nat);
    lemma_digits_exclude(da, '.');
    lemma_digits_exclude(db, '.');
    lemma_digits_exclude(dc, '.');
    lemma_digits_exclude(dd, '.');
    let t = spec_ipv4_text(a, b, c, d);
    assert(t =~= da + seq!['.'] + (db + seq!['.'] + (dc + seq!['.'] + dd)));
    lemma_split_on_prefix(da, db + seq!['.'] + (dc + seq!['.'] + dd), '.');
    lemma_split_on_prefix(db, dc + seq!['.'] + dd, '.');
    lemma_split_on_prefix(dc, dd, '.');
    lemma_split_on_whole(dd, '.');
    assert(ip_parts(t) =~= seq![da, db, dc, dd]);
}

proof fn lemma_decimal_is(n: nat, m: nat, lit: Seq<char>)
    requires
        digits_value(lit) == m,
        decimal(m) == lit,
    ensures
        (decimal(n) == lit) <==> n == m,
{
    lemma_decimal(n);
}

/// Law: the text of an address is a `10.0.x.x` address exactly when its
/// first octets are 10 and 0, and a `192.168.x.x` address exactly when its first
/// octets are 192 and 168.
pub proof fn lemma_ipv4_text_networks(a: u8, b: u8, c: u8, d: u8)
    ensures
        is_10_0_net(spec_ipv4_text(a, b, c, d)) <==> a == 10 && b == 0,
        is_192_168_net(spec_ipv4_text(a, b, c, d)) <==> a == 192 && b == 168,
{
    reveal_strlit("10");
    reveal_strlit("0");
    reveal_strlit("192");
    reveal_strlit("168");
    lemma_ipv4_text_parts(a, b, c, d);
    assert(decimal(1) =~= seq!['1']);
    assert(decimal(10) =~= "10"@);
    assert(decimal(19) =~= seq!['1', '9']);
    assert(decimal(192) =~= "192"@);
    assert(decimal(16) =~= seq!['1', '6']);
    assert(decimal(168) =~= "168"@);
    lemma_decimal(10);
    lemma_decimal(192);
    lemma_decimal(168);
    assert(decimal(0) =~= "0"@);
    lemma_decimal(0);
    lemma_decimal_is(b as nat, 0, "0"@);
    lemma_decimal_is(a as nat, 10, "10"@);
    lemma_decimal_is(a as nat, 192, "192"@);
    lemma_decimal_is(b as nat, 168, "168"@);
}

fn ip_is_10_0_net(ip: &String) -> (r: bool)
    ensures
        r == is_10_0_net(ip@),
{
    let c = chars_of(ip.as_str());
    let parts = split_chars(c.as_slice(), '.');
    if parts.len() != 4 {
        return false;
    }
    let ten = chars_of("10");
    let zero = chars_of("0");
    assert(views_of(parts@)[0] == parts@[0]@);
    assert(views_of(parts@)[1] == parts@[1]@);
    chars_eq(parts[0].as_slice(), ten.as_slice()) && chars_eq(parts[1].as_slice(), zero.as_slice())
}

fn ip_is_192_168_net(ip: &String) -> (r: bool)
    ensures
        r == is_192_168_net(ip@),
{
    let c = chars_of(ip.as_str());
    let parts = split_chars(c.as_slice(), '.');
    if parts.len() != 4 {
        return false;
    }
    let a = chars_of("192");
    let b = chars_of("168");
    assert(views_of(parts@)[0] == parts@[0]@);
    assert(views_of(parts@)[1] == parts@[1]@);
    chars_eq(parts[0].as_slice(), a.as_slice()) && chars_eq(parts[1].as_slice(), b.as_slice())
}

/// The address to show among the candidates (text and first octet).
pub fn select_ip_by_priority(ips: &[(String, u8)]) -> (r: String)
    ensures
        r@ == spec_select_ip(ip_texts(ips@)),
{
    let ghost t = ip_texts(ips@);
    let mut i: usize = 0;
    while i < ips.len()
        invariant
            i <= ips@.len(),
            t == ip_texts(ips@),
            first_10_0_net(t, 0) == first_10_0_net(t, i as int),
        decreases ips@.len() - i,
    {
        if ip_is_10_0_net(&ips[i].0) {
            return ips[i].0.clone();
        }
        i = i + 1;
    }
    let mut j: usize = 0;
    while j < ips.len()
        invariant
            j <= ips@.len(),
            t == ip_texts(ips@),
            first_10_0_net(t, 0) is None,
            first_192_168_net(t, 0) == first_192_168_net(t, j as int),
        decreases ips@.len() - j,
    {
        if ip_is_192_168_net(&ips[j].0) {
            return ips[j].0.clone();
        }
        j = j + 1;
    }
    if ips.len() > 0 {
        ips[0].0.clone()
    } else {
        string_from_chars(chars_of(NO_ADDRESS).as_slice())
    }
}

/// `a.b.c.d` in decimal.
pub open spec fn spec_ipv4_text(a: u8, b: u8, c: u8, d: u8) -> Seq<char> {
    decimal(a as nat) + "."@ + decimal(b as nat) + "."@ + decimal(c as nat) + "."@ + decimal(
        d as nat,
    )
}

/// The dotted-decimal text of an IPv4 address.
pub fn ipv4_text(a: u8, b: u8, c: u8, d: u8) -> (s: String)
    ensures
        s@ == spec_ipv4_text(a, b, c, d),
{
    let dot = chars_of(".");
    let mut out = decimal_chars(a as u32);
    extend_chars(&mut out, dot.as_slice());
    extend_chars(&mut out, decimal_chars(b as u32).as_slice());
    extend_chars(&mut out, dot.as_slice());
    extend_chars(&mut out, decimal_chars(c as u32).as_slice());
    extend_chars(&mut out, dot.as_slice());
    extend_chars(&mut out, decimal_chars(d as u32).as_slice());
    string_from_chars(out.as_slice())
}

/// An address worth showing: not `0.x`, loopback `127.x` or link-local
/// `169.x`.
pub open spec fn usable_first_octet(a: u8) -> bool {
    a != 0 && a != 127 && a != 169
}

/// The candidates one adapter contributes, in order.
pub open spec fn adapter_candidates(ad: AdapterInfo) -> Seq<(Seq<char>, u8)>
    decreases ad.ipv4@.len(),
{
    spec_address_candidates(ad.ipv4@, ad.oper_status)
}

/// The candidates of the given addresses of an adapter with `status`.
pub open spec fn spec_address_candidates(addrs: Seq<(u8, u8, u8, u8)>, status: u32) -> Seq<(Seq<char>, u8)>
    decreases addrs.len(),
{
    if addrs.len() == 0 || status != OPER_STATUS_UP {
        Seq::empty()
    } else {
        let r = spec_address_candidates(addrs.drop_last(), status);
        let (a, b, c, d) = addrs.last();
        if usable_first_octet(a) {
            r.push((spec_ipv4_text(a, b, c, d), a))
        } else {
            r
        }
    }
}

/// The candidates of all adapters, in adapter order.
pub open spec fn spec_ipv4_candidates(adapters: Seq<AdapterInfo>) -> Seq<(Seq<char>, u8)>
    decreases adapters.len(),
{
    if adapters.len() == 0 {
        Seq::empty()
    } else {
        spec_ipv4_candidates(adapters.drop_last()) + adapter_candidates(adapters.last())
    }
}

/// The abstract value of a candidate list.
pub open spec fn candidate_pairs(ips: Seq<(String, u8)>) -> Seq<(Seq<char>, u8)> {
    Seq::new(ips.len(), |i: int| (ips[i].0@, ips[i].1))
}

/// The addresses of active adapters that are worth showing, each with its
/// first octet.
pub fn ipv4_candidates(adapters: &[AdapterInfo]) -> (out: Vec<(String, u8)>)
    ensures
        candidate_pairs(out@) == spec_ipv4_candidates(adapters@),
{
    let mut out: Vec<(String, u8)> = Vec::new();
    let mut i: usize = 0;
    assert(adapters@.take(0) =~= Seq::<AdapterInfo>::empty());
    while i < adapters.len()
        invariant
            i <= adapters@.len(),
            candidate_pairs(out@) == spec_ipv4_candidates(adapters@.take(i as int)),
        decreases adapters@.len() - i,
    {
        let ad = &adapters[i];
        assert(adapters@.take(i + 1).drop_last() =~= adapters@.take(i as int));
        assert(adapters@.take(i + 1).last() == adapters@[i as int]);
        let ghost base = candidate_pairs(out@);
        let mut j: usize = 0;
        assert(ad.ipv4@.take(0) =~= Seq::<(u8, u8, u8, u8)>::empty());
        while j < ad.ipv4.len()
            invariant
                j <= ad.ipv4@.len(),
                candidate_pairs(out@) == base + spec_address_candidates(
                    ad.ipv4@.take(j as int),
                    ad.oper_status,
                ),
            decreases ad.ipv4@.len() - j,
        {
            assert(ad.ipv4@.take(j + 1).drop_last() =~= ad.ipv4@.take(j as int));
            if ad.oper_status == OPER_STATUS_UP {
                let (a, b, c, d) = ad.ipv4[j];
                if a != 0 && a != 127 && a != 169 {
                    let ghost before = candidate_pairs(out@);
                    let text = ipv4_text(a, b, c, d);
                    out.push((text, a));
                    assert(candidate_pairs(out@) =~= before.push((spec_ipv4_text(a, b, c, d), a)));
                }
            }
            j = j + 1;
        }
        assert(ad.ipv4@.take(ad.ipv4@.len() as int) =~= ad.ipv4@);
        i = i + 1;
    }
    assert(adapters@.take(adapters@.len() as int) =~= adapters@);
    out
}

/// The text of each candidate.
pub open spec fn candidate_texts(c: Seq<(Seq<char>, u8)>) -> Seq<Seq<char>> {
    Seq::new(c.len(), |i: int| c[i].0)
}

/// The address the overlay shows for these adapters.
pub open spec fn spec_displayed_ip(adapters: Seq<AdapterInfo>) -> Seq<char> {
    spec_select_ip(candidate_texts(spec_ipv4_candidates(adapters)))
}

/// The address to show for the adapters `GetAdaptersAddresses` reported.
pub fn displayed_ip(adapters: &[AdapterInfo]) -> (s: String)
    ensures
        s@ == spec_displayed_ip(adapters@),
{
    let c = ipv4_candidates(adapters);
    assert(ip_texts(c@) =~= candidate_texts(candidate_pairs(c@)));
    select_ip_by_priority(c.as_slice())
}

/// Address `j` of adapter `ad` qualifies: the adapter is up and the address
/// is not `0.x`, `127.x` or `169.x`.
pub open spec fn qualifies(ad: AdapterInfo, j: int) -> bool {
    ad.oper_status == OPER_STATUS_UP && 0 <= j < ad.ipv4@.len() && usable_first_octet(ad.ipv4@[j].0)
}

/// The candidate an address gives: its text and first octet.
pub open spec fn candidate_of(addr: (u8, u8, u8, u8)) -> (Seq<char>, u8) {
    (spec_ipv4_text(addr.0, addr.1, addr.2, addr.3), addr.0)
}

proof fn lemma_address_candidates(addrs: Seq<(u8, u8, u8, u8)>, status: u32)
    ensures
        forall|i: int|
            0 <= i < spec_address_candidates(addrs, status).len() ==> exists|j: int|
                0 <= j < addrs.len() && status == OPER_STATUS_UP && usable_first_octet(addrs[j].0)
                    && #[trigger] spec_address_candidates(addrs, status)[i] == candidate_of(addrs[j]),
        forall|j: int|
            0 <= j < addrs.len() && status == OPER_STATUS_UP && usable_first_octet(
                #[trigger] addrs[j].0,
            ) ==> spec_address_candidates(addrs, status).contains(candidate_of(addrs[j])),
    decreases addrs.len(),
{
    if addrs.len() > 0 && status == OPER_STATUS_UP {
        let pre = addrs.drop_last();
        lemma_address_candidates(pre, status);
        let r = spec_address_candidates(pre, status);
        let t = spec_address_candidates(addrs, status);
        let last = addrs.last();
        assert forall|i: int| 0 <= i < t.len() implies exists|j: int|
            0 <= j < addrs.len() && status == OPER_STATUS_UP && usable_first_octet(addrs[j].0)
                && #[trigger] t[i] == candidate_of(addrs[j]) by {
            if i < r.len() {
                assert(t[i] == r[i]);
                let j = choose|j: int|
                    0 <= j < pre.len() && status == OPER_STATUS_UP && usable_first_octet(pre[j].0)
                        && #[trigger] r[i] == candidate_of(pre[j]);
                assert(addrs[j] == pre[j]);
            } else {
                assert(t[i] == candidate_of(addrs[addrs.len() - 1]));
            }
        }
        assert forall|j: int|
            0 <= j < addrs.len() && status == OPER_STATUS_UP && usable_first_octet(
                #[trigger] addrs[j].0,
            ) implies t.contains(candidate_of(addrs[j])) by {
            if j < pre.len() {
                assert(addrs[j] == pre[j]);
                let k = choose|k: int| 0 <= k < r.len() && r[k] == candidate_of(pre[j]);
                assert(t[k] == r[k]);
            } else {
                assert(t[t.len() - 1] == candidate_of(last));
            }
        }
    }
}

/// `x` is the candidate of a qualifying address of one of the adapters.
pub open spec fn from_qualifying(adapters: Seq<AdapterInfo>, x: (Seq<char>, u8)) -> bool {
    exists|k: int, j: int|
        0 <= k < adapters.len() && qualifies(adapters[k], j) && x == candidate_of(
            #[trigger] adapters[k].ipv4@[j],
        )
}

/// Law: the candidates are exactly the qualifying addresses: each one is
/// the text and first octet of a qualifying address of some adapter, and
/// every qualifying address gives one.
pub proof fn lemma_ipv4_candidates_exact(adapters: Seq<AdapterInfo>)
    ensures
        forall|i: int|
            0 <= i < spec_ipv4_candidates(adapters).len() ==> from_qualifying(
                adapters,
                #[trigger] spec_ipv4_candidates(adapters)[i],
            ),
        forall|k: int, j: int|
            0 <= k < adapters.len() && #[trigger] qualifies(adapters[k], j)
                ==> spec_ipv4_candidates(adapters).contains(candidate_of(adapters[k].ipv4@[j])),
    decreases adapters.len(),
{
    if adapters.len() > 0 {
        let pre = adapters.drop_last();
        let last = adapters.last();
        lemma_ipv4_candidates_exact(pre);
        lemma_address_candidates(last.ipv4@, last.oper_status);
        let r = spec_ipv4_candidates(pre);
        let a = adapter_candidates(last);
        let t = spec_ipv4_candidates(adapters);
        assert(t == r + a);
        let n = adapters.len() - 1;
        assert forall|i: int| 0 <= i < t.len() implies from_qualifying(adapters, #[trigger] t[i]) by {
            if i < r.len() {
                assert(t[i] == r[i]);
                assert(from_qualifying(pre, r[i]));
                let (k, j) = choose|k: int, j: int|
                    0 <= k < pre.len() && qualifies(pre[k], j) && r[i] == candidate_of(
                        #[trigger] pre[k].ipv4@[j],
                    );
                assert(adapters[k] == pre[k]);
                assert(qualifies(adapters[k], j) && t[i] == candidate_of(adapters[k].ipv4@[j]));
            } else {
                assert(t[i] == a[i - r.len()]);
                let j = choose|j: int|
                    0 <= j < last.ipv4@.len() && last.oper_status == OPER_STATUS_UP
                        && usable_first_octet(last.ipv4@[j].0) && #[trigger] a[i - r.len()]
                        == candidate_of(last.ipv4@[j]);
                assert(adapters[n] == last);
                assert(qualifies(adapters[n], j) && t[i] == candidate_of(adapters[n].ipv4@[j]));
            }
        }
        assert forall|k: int, j: int|
            0 <= k < adapters.len() && #[trigger] qualifies(adapters[k], j) implies t.contains(
                candidate_of(adapters[k].ipv4@[j]),
            ) by {
            if k < pre.len() {
                assert(adapters[k] == pre[k]);
                assert(qualifies(pre[k], j));
                let m = choose|m: int| 0 <= m < r.len() && r[m] == candidate_of(pre[k].ipv4@[j]);
                assert(t[m] == r[m]);
            } else {
                assert(adapters[k] == last);
                assert(usable_first_octet(last.ipv4@[j].0));
                let m = choose|m: int| 0 <= m < a.len() && a[m] == candidate_of(last.ipv4@[j]);
                assert(t[r.len() + m] == a[m]);
            }
        }
    }
}

/// Law (the adapter priority): whenever an active adapter has a `10.0.x.x`
/// address, the overlay shows a `10.0.x.x` address.
pub proof fn lemma_10_0_net_shown(adapters: Seq<AdapterInfo>, k: int, j: int)
    requires
        0 <= k < adapters.len(),
        adapters[k].oper_status == OPER_STATUS_UP,
        0 <= j < adapters[k].ipv4@.len(),
        adapters[k].ipv4@[j].0 == 10,
        adapters[k].ipv4@[j].1 == 0,
    ensures
        is_10_0_net(spec_displayed_ip(adapters)),
{
    let c = spec_ipv4_candidates(adapters);
    let texts = candidate_texts(c);
    lemma_ipv4_candidates_exact(adapters);
    assert(qualifies(adapters[k], j));
    let addr = adapters[k].ipv4@[j];
    let m = choose|m: int| 0 <= m < c.len() && c[m] == candidate_of(addr);
    lemma_ipv4_text_networks(addr.0, addr.1, addr.2, addr.3);
    assert(is_10_0_net(texts[m]));
    lemma_select_ip_priority(texts);
}

/// Law (the adapter priority): when no active adapter has a `10.0.x.x`
/// address but one has a `192.168.x.x` address, the overlay shows a
/// `192.168.x.x` address.
pub proof fn lemma_192_168_net_shown(adapters: Seq<AdapterInfo>, k: int, j: int)
    requires
        forall|p: int, q: int|
            0 <= p < adapters.len() && adapters[p].oper_status == OPER_STATUS_UP && 0 <= q
                < adapters[p].ipv4@.len() ==> !((#[trigger] adapters[p].ipv4@[q]).0 == 10
                && adapters[p].ipv4@[q].1 == 0),
        0 <= k < adapters.len(),
        adapters[k].oper_status == OPER_STATUS_UP,
        0 <= j < adapters[k].ipv4@.len(),
        adapters[k].ipv4@[j].0 == 192,
        adapters[k].ipv4@[j].1 == 168,
    ensures
        is_192_168_net(spec_displayed_ip(adapters)),
{
    let c = spec_ipv4_candidates(adapters);
    let texts = candidate_texts(c);
    lemma_ipv4_candidates_exact(adapters);
    assert(qualifies(adapters[k], j));
    let addr = adapters[k].ipv4@[j];
    let m = choose|m: int| 0 <= m < c.len() && c[m] == candidate_of(addr);
    lemma_ipv4_text_networks(addr.0, addr.1, addr.2, addr.3);
    assert(is_192_168_net(texts[m]));
    assert forall|i: int| 0 <= i < texts.len() implies !is_10_0_net(#[trigger] texts[i]) by {
        assert(from_qualifying(adapters, c[i]));
        let (p, q) = choose|p: int, q: int|
            0 <= p < adapters.len() && qualifies(adapters[p], q) && c[i] == candidate_of(
                #[trigger] adapters[p].ipv4@[q],
            );
        let x = adapters[p].ipv4@[q];
        lemma_ipv4_text_networks(x.0, x.1, x.2, x.3);
    }
    lemma_select_ip_priority(texts);
}

/// Law: `N/A` is shown exactly when no adapter has a qualifying address;
/// otherwise the shown address is one of the qualifying addresses.
pub proof fn lemma_displayed_ip_source(adapters: Seq<AdapterInfo>)
    ensures
        (forall|k: int, j: int| 0 <= k < adapters.len() ==> !#[trigger] qualifies(adapters[k], j))
            ==> spec_displayed_ip(adapters) == NO_ADDRESS@,
        (exists|k: int, j: int| 0 <= k < adapters.len() && #[trigger] qualifies(adapters[k], j))
            ==> exists|k: int, j: int|
            0 <= k < adapters.len() && qualifies(adapters[k], j) && spec_displayed_ip(adapters)
                == #[trigger] candidate_of(adapters[k].ipv4@[j]).0,
{
    let c = spec_ipv4_candidates(adapters);
    let texts = candidate_texts(c);
    lemma_ipv4_candidates_exact(adapters);
    lemma_select_ip_priority(texts);
    if forall|k: int, j: int| 0 <= k < adapters.len() ==> !#[trigger] qualifies(adapters[k], j) {
        if c.len() > 0 {
            assert(from_qualifying(adapters, c[0]));
            let (k, j) = choose|k: int, j: int|
                0 <= k < adapters.len() && qualifies(adapters[k], j) && c[0] == candidate_of(
                    #[trigger] adapters[k].ipv4@[j],
                );
            assert(qualifies(adapters[k], j));
        }
    }
    if exists|k: int, j: int| 0 <= k < adapters.len() && #[trigger] qualifies(adapters[k], j) {
        let (k, j) = choose|k: int, j: int| 0 <= k < adapters.len() && #[trigger] qualifies(adapters[k], j);
        let m = choose|m: int| 0 <= m < c.len() && c[m] == candidate_of(adapters[k].ipv4@[j]);
        assert(texts.len() > 0);
        let shown = spec_select_ip(texts);
        let i = choose|i: int| 0 <= i < texts.len() && texts[i] == shown;
        assert(from_qualifying(adapters, c[i]));
        let (p, q) = choose|p: int, q: int|
            0 <= p < adapters.len() && qualifies(adapters[p], q) && c[i] == candidate_of(
                #[trigger] adapters[p].ipv4@[q],
            );
        assert(shown == candidate_of(adapters[p].ipv4@[q]).0);
    }
}

} // verus!
