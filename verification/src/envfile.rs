//! The spend-context synthesizer: completion of a sparse, user-authored
//! scenario description into a fully dense transaction and execution
//! environment.
//!
//! Sparse position-to-value maps are held as association lists with
//! strictly ascending keys and densified by [`map_to_vec`]: the dense list
//! is one longer than the largest key, positions without an entry receive
//! a caller-supplied default, and entries come out in ascending position
//! order. The entry at the spender's own index is always overwritten with
//! a placeholder self-reference, whatever the user supplied there.

use vstd::prelude::*;

verus! {

/// DenseTransaction-kind tag of the spending transaction.
#[derive(Clone, Copy, PartialEq, Eq, Structural, Debug)]
pub enum TransactionKind {
    Normal,
    Stake,
    DoscMint,
    Swap,
    LiqDeposit,
    LiqWithdraw,
    Faucet,
}

/// A coin denomination.
#[derive(Clone, Copy, Debug)]
pub enum Denom {
    Mel,
    Sym,
    NomDosc,
    NewCoin,
    Custom([u8; 32]),
}

/// A reference to a coin: the hash of the transaction that created it and
/// the output position within that transaction.
#[derive(Debug)]
pub struct CoinId {
    pub txhash: Vec<u8>,
    pub index: u8,
}

/// Mathematical image of a [`CoinId`].
pub struct CoinIdV {
    pub txhash: Seq<u8>,
    pub index: u8,
}

impl View for CoinId {
    type V = CoinIdV;

    open spec fn view(&self) -> CoinIdV {
        CoinIdV { txhash: self.txhash@, index: self.index }
    }
}

impl Clone for CoinId {
    fn clone(&self) -> (res: Self)
        ensures
            res@ == self@,
    {
        let res = CoinId { txhash: self.txhash.clone(), index: self.index };
        proof {
            assert(res.txhash@ =~= self.txhash@);
        }
        res
    }
}

/// An output record: destination covenant hash, value, denomination and
/// free-form attachment.
#[derive(Debug)]
pub struct CoinRecord {
    pub covhash: Vec<u8>,
    pub value: u128,
    pub denom: Denom,
    pub additional_data: Vec<u8>,
}

/// Mathematical image of a [`CoinRecord`].
pub struct CoinRecordV {
    pub covhash: Seq<u8>,
    pub value: u128,
    pub denom: Denom,
    pub additional_data: Seq<u8>,
}

impl View for CoinRecord {
    type V = CoinRecordV;

    open spec fn view(&self) -> CoinRecordV {
        CoinRecordV {
            covhash: self.covhash@,
            value: self.value,
            denom: self.denom,
            additional_data: self.additional_data@,
        }
    }
}

impl Clone for CoinRecord {
    fn clone(&self) -> (res: Self)
        ensures
            res@ == self@,
    {
        let res = CoinRecord {
            covhash: self.covhash.clone(),
            value: self.value,
            denom: self.denom,
            additional_data: self.additional_data.clone(),
        };
        proof {
            assert(res.covhash@ =~= self.covhash@);
            assert(res.additional_data@ =~= self.additional_data@);
        }
        res
    }
}

/// The spending transaction, fully dense.
#[derive(Debug)]
pub struct DenseTransaction {
    pub kind: TransactionKind,
    pub inputs: Vec<CoinId>,
    pub outputs: Vec<CoinRecord>,
    pub fee: u128,
    pub covenants: Vec<Vec<u8>>,
    pub data: Vec<u8>,
    pub sigs: Vec<Vec<u8>>,
}

/// Mathematical image of a [`DenseTransaction`].
pub struct DenseTransactionV {
    pub kind: TransactionKind,
    pub inputs: Seq<CoinIdV>,
    pub outputs: Seq<CoinRecordV>,
    pub fee: u128,
    pub covenants: Seq<Seq<u8>>,
    pub data: Seq<u8>,
    pub sigs: Seq<Seq<u8>>,
}

impl View for DenseTransaction {
    type V = DenseTransactionV;

    open spec fn view(&self) -> DenseTransactionV {
        DenseTransactionV {
            kind: self.kind,
            inputs: self.inputs@.map_values(|c: CoinId| c@),
            outputs: self.outputs@.map_values(|c: CoinRecord| c@),
            fee: self.fee,
            covenants: self.covenants@.map_values(|v: Vec<u8>| v@),
            data: self.data@,
            sigs: self.sigs@.map_values(|v: Vec<u8>| v@),
        }
    }
}

/// A coin together with the block height at which it was created.
#[derive(Debug)]
pub struct CoinDataHeight {
    pub coin_data: CoinRecord,
    pub height: u64,
}

/// A block header with zeroed hash fields and fixed synthetic numeric
/// fields, sufficient for script logic that reads header fields.
#[derive(Debug)]
pub struct Header {
    pub network: u8,
    pub previous: Vec<u8>,
    pub height: u64,
    pub history_hash: Vec<u8>,
    pub coins_hash: Vec<u8>,
    pub transactions_hash: Vec<u8>,
    pub fee_pool: u128,
    pub fee_multiplier: u128,
    pub dosc_speed: u128,
    pub pools_hash: Vec<u8>,
    pub stakes_hash: Vec<u8>,
}

/// The execution environment handed to the bytecode executor alongside the
/// spending transaction.
#[derive(Debug)]
pub struct CovenantEnv {
    pub parent_coinid: CoinId,
    pub parent_cdh: CoinDataHeight,
    pub spender_index: u8,
    pub last_header: Header,
}

/// A complete, internally consistent execution context: the spending
/// transaction plus its environment.
#[derive(Debug)]
pub struct EnvFile {
    pub spender_tx: DenseTransaction,
    pub environment: CovenantEnv,
}

/// A partial, user-authored specification of a spending context.
#[derive(Debug)]
pub struct SpendContext {
    /// Kind of the spending transaction.
    pub spender_txkind: TransactionKind,
    /// Sparse map from input position to coin reference.
    pub spender_other_inputs: Vec<(u8, CoinId)>,
    /// Position, within the final input list, of the coin being spent.
    pub spender_index: u8,
    /// Data field of the spending transaction.
    pub spender_data: Vec<u8>,
    /// Sparse map from output position to output record.
    pub spender_output: Vec<(u8, CoinRecord)>,
    /// Value of the parent coin.
    pub parent_value: u128,
    /// Denomination of the parent coin.
    pub parent_denom: Denom,
    /// Additional data of the parent coin.
    pub parent_additional_data: Vec<u8>,
    /// Hex-encoded private keys signing the transaction, by input position.
    pub ed25519_signers: Vec<(u8, String)>,
}

/// The sparse maps' keys are strictly ascending.
pub open spec fn keys_ascending<VT>(m: Seq<(u8, VT)>) -> bool {
    forall|i: int, j: int| 0 <= i < j < m.len() ==> m[i].0 < m[j].0
}

impl SpendContext {
    /// Well-formedness: every sparse map has strictly ascending keys, and
    /// every hash a coin reference or output carries is 32 bytes, as the
    /// ledger's types demand.
    pub open spec fn wf(&self) -> bool {
        &&& keys_ascending(self.spender_other_inputs@)
        &&& keys_ascending(self.spender_output@)
        &&& keys_ascending(self.ed25519_signers@)
        &&& (forall|i: int|
            0 <= i < self.spender_other_inputs@.len()
                ==> (#[trigger] self.spender_other_inputs@[i]).1.txhash@.len() == 32)
        &&& (forall|i: int|
            0 <= i < self.spender_output@.len() ==> (#[trigger] self.spender_output@[i]).1.covhash@.len()
                == 32)
    }
}

/// Length of the densified list: one more than the largest key present.
pub open spec fn dense_len<VT>(m: Seq<(u8, VT)>) -> int {
    if m.len() == 0 {
        0
    } else {
        m[m.len() - 1].0 + 1
    }
}

/// The value bound to key `k`, searched from the back.
pub open spec fn spec_lookup<VT>(m: Seq<(u8, VT)>, k: int) -> Option<VT>
    decreases m.len(),
{
    if m.len() == 0 {
        None
    } else if m[m.len() - 1].0 == k {
        Some(m[m.len() - 1].1)
    } else {
        spec_lookup(m.drop_last(), k)
    }
}

/// The densified entry at position `i`: the map's value when one is
/// present, else the default.
pub open spec fn spec_dense_at<VT>(m: Seq<(u8, VT)>, d: VT, i: int) -> VT {
    match spec_lookup(m, i) {
        Some(v) => v,
        None => d,
    }
}

/// Densification of a sparse map: a contiguous sequence one longer than
/// the largest key, default-filled at absent positions.
pub open spec fn spec_densify<VT>(m: Seq<(u8, VT)>, d: VT) -> Seq<VT> {
    Seq::new(dense_len(m) as nat, |i: int| spec_dense_at(m, d, i))
}

/// Sorted insertion (or replacement) of a key.
pub open spec fn spec_insert<VT>(m: Seq<(u8, VT)>, k: u8, v: VT) -> Seq<(u8, VT)>
    decreases m.len(),
{
    if m.len() == 0 {
        seq![(k, v)]
    } else if m[m.len() - 1].0 < k {
        m + seq![(k, v)]
    } else if m[m.len() - 1].0 == k {
        m.drop_last() + seq![(k, v)]
    } else {
        spec_insert(m.drop_last(), k, v) + seq![m[m.len() - 1]]
    }
}

/// What sorted insertion does to lookups, length and order.
pub proof fn lemma_insert_lookup<VT>(m: Seq<(u8, VT)>, k: u8, v: VT, i: int)
    requires
        keys_ascending(m),
    ensures
        keys_ascending(spec_insert(m, k, v)),
        spec_lookup(spec_insert(m, k, v), k as int) == Some(v),
        i != k ==> spec_lookup(spec_insert(m, k, v), i) == spec_lookup(m, i),
        dense_len(spec_insert(m, k, v)) == if dense_len(m) >= k + 1 {
            dense_len(m)
        } else {
            k + 1
        },
    decreases m.len(),
{
    let r = spec_insert(m, k, v);
    if m.len() == 0 {
        assert(r =~= seq![(k, v)]);
        assert(r.drop_last() =~= Seq::<(u8, VT)>::empty());
        if i != k {
            assert(spec_lookup(r, i) == spec_lookup(r.drop_last(), i));
            assert(spec_lookup(r.drop_last(), i) is None);
        }
    } else {
        let last = m[m.len() - 1];
        assert(keys_ascending(m.drop_last()));
        if last.0 < k {
            assert(r =~= m + seq![(k, v)]);
            assert(r.drop_last() =~= m);
            assert(r[r.len() - 1] == (k, v));
            if i != k {
                assert(spec_lookup(r, i) == spec_lookup(r.drop_last(), i));
            }
            assert forall|a: int, b: int| 0 <= a < b < r.len() implies r[a].0 < r[b].0 by {
                if b == r.len() - 1 && a < m.len() {
                    assert(m[a].0 <= last.0 || a == m.len() - 1);
                    if a < m.len() - 1 {
                        assert(m[a].0 < last.0);
                    }
                }
            }
        } else if last.0 == k {
            assert(r =~= m.drop_last() + seq![(k, v)]);
            assert(r.drop_last() =~= m.drop_last());
            assert forall|a: int, b: int| 0 <= a < b < r.len() implies r[a].0 < r[b].0 by {
                if b == r.len() - 1 && a < m.len() - 1 {
                    assert(m[a].0 < last.0);
                }
            }
            if i != k {
                assert(spec_lookup(r, i) == spec_lookup(m.drop_last(), i));
                assert(spec_lookup(m, i) == spec_lookup(m.drop_last(), i));
            }
        } else {
            let rr = spec_insert(m.drop_last(), k, v);
            lemma_insert_lookup(m.drop_last(), k, v, i);
            lemma_insert_lookup(m.drop_last(), k, v, last.0 as int);
            assert(r =~= rr + seq![last]);
            assert(r.drop_last() =~= rr);
            assert(rr.len() > 0);
            assert forall|a: int, b: int| 0 <= a < b < r.len() implies r[a].0 < r[b].0 by {
                if b == r.len() - 1 {
                    assert(rr[a].0 < last.0) by {
                        lemma_insert_keys_below(m.drop_last(), k, v, a);
                    }
                }
            }
            if i != k {
                if i == last.0 {
                    assert(spec_lookup(r, i) == Some(last.1));
                    assert(spec_lookup(m, i) == Some(last.1));
                } else {
                    assert(spec_lookup(r, i) == spec_lookup(rr, i));
                    assert(spec_lookup(m, i) == spec_lookup(m.drop_last(), i));
                }
            }
            assert(spec_lookup(r, k as int) == spec_lookup(rr, k as int));
            assert(dense_len(r) == last.0 + 1);
        }
    }
}

/// Every key of a sorted insertion is bounded by the larger of the map's
/// keys and the inserted key.
proof fn lemma_insert_keys_below<VT>(m: Seq<(u8, VT)>, k: u8, v: VT, a: int)
    requires
        keys_ascending(m),
        0 <= a < spec_insert(m, k, v).len(),
    ensures
        spec_insert(m, k, v)[a].0 <= k || (m.len() > 0 && spec_insert(m, k, v)[a].0 <= m[m.len()
            - 1].0),
    decreases m.len(),
{
    if m.len() > 0 {
        let last = m[m.len() - 1];
        if last.0 < k {
            if a < m.len() && a < m.len() - 1 {
                assert(m[a].0 < last.0);
            }
        } else if last.0 == k {
        } else {
            if a < spec_insert(m.drop_last(), k, v).len() {
                assert(keys_ascending(m.drop_last()));
                lemma_insert_keys_below(m.drop_last(), k, v, a);
                if m.len() >= 2 {
                    assert(m.drop_last()[m.drop_last().len() - 1].0 < last.0);
                }
            }
        }
    }
}

proof fn lemma_lookup_beyond<VT>(m: Seq<(u8, VT)>, k: int)
    requires
        keys_ascending(m),
        m.len() == 0 || k > m[m.len() - 1].0,
    ensures
        spec_lookup(m, k) is None,
    decreases m.len(),
{
    if m.len() > 0 {
        assert(keys_ascending(m.drop_last()));
        if m.len() >= 2 {
            assert(m.drop_last()[m.drop_last().len() - 1].0 < m[m.len() - 1].0);
        }
        lemma_lookup_beyond(m.drop_last(), k);
    }
}

/// Densifies a sparse position-to-value map into a contiguous list: the
/// result is one longer than the largest key present, holds the map's
/// value at each key, and a clone of `default` everywhere else.
pub fn map_to_vec<V: Clone>(map: &Vec<(u8, V)>, default: &V) -> (r: Vec<V>)
    requires
        keys_ascending(map@),
    ensures
        r@.len() == dense_len(map@),
        forall|i: int|
            0 <= i < r@.len() ==> cloned(spec_dense_at(map@, *default, i), #[trigger] r@[i]),
{
    let mut list: Vec<V> = Vec::new();
    let mut j: usize = 0;
    while j < map.len()
        invariant
            j <= map@.len(),
            keys_ascending(map@),
            list@.len() == dense_len(map@.take(j as int)),
            list@.len() <= 256,
            forall|i: int|
                0 <= i < list@.len() ==> cloned(
                    spec_dense_at(map@.take(j as int), *default, i),
                    #[trigger] list@[i],
                ),
        decreases map@.len() - j,
    {
        let k = map[j].0 as usize;
        proof {
            if j > 0 {
                assert(map@[j as int - 1].0 < map@[j as int].0);
            }
            assert(list@.len() <= k);
        }
        while list.len() < k
            invariant
                j < map@.len(),
                keys_ascending(map@),
                k == map@[j as int].0 as usize,
                list@.len() <= k,
                dense_len(map@.take(j as int)) <= list@.len(),
                forall|i: int|
                    0 <= i < list@.len() ==> cloned(
                        spec_dense_at(map@.take(j as int), *default, i),
                        #[trigger] list@[i],
                    ),
            decreases k - list@.len(),
        {
            proof {
                lemma_lookup_beyond(map@.take(j as int), list@.len() as int);
            }
            list.push(default.clone());
        }
        let v = map[j].1.clone();
        list.push(v);
        proof {
            let mj = map@.take(j + 1);
            assert(mj.drop_last() =~= map@.take(j as int));
            assert(mj[mj.len() - 1] == map@[j as int]);
            assert(dense_len(mj) == k + 1);
            assert(spec_lookup(mj, k as int) == Some(map@[j as int].1));
            assert forall|i: int| 0 <= i < k implies spec_lookup(mj, i) == spec_lookup(
                map@.take(j as int),
                i,
            ) by {
                assert(mj.drop_last() =~= map@.take(j as int));
            }
            assert forall|i: int| 0 <= i < list@.len() implies cloned(
                spec_dense_at(mj, *default, i),
                #[trigger] list@[i],
            ) by {
                if i < k {
                    assert(spec_dense_at(mj, *default, i) == spec_dense_at(
                        map@.take(j as int),
                        *default,
                        i,
                    ));
                }
            }
        }
        j = j + 1;
    }
    proof {
        assert(map@.take(j as int) =~= map@);
    }
    list
}

/// Entry views of a sparse coin-reference map.
pub open spec fn entries_v_coinid(s: Seq<(u8, CoinId)>) -> Seq<(u8, CoinIdV)> {
    s.map_values(|p: (u8, CoinId)| (p.0, p.1@))
}

/// Entry views of a sparse output map.
pub open spec fn entries_v_coindata(s: Seq<(u8, CoinRecord)>) -> Seq<(u8, CoinRecordV)> {
    s.map_values(|p: (u8, CoinRecord)| (p.0, p.1@))
}

/// Entry views of the signer map.
pub open spec fn entries_v_str(s: Seq<(u8, String)>) -> Seq<(u8, Seq<char>)> {
    s.map_values(|p: (u8, String)| (p.0, p.1@))
}

/// Entry views of a signature map.
pub open spec fn entries_v_bytes(s: Seq<(u8, Vec<u8>)>) -> Seq<(u8, Seq<u8>)> {
    s.map_values(|p: (u8, Vec<u8>)| (p.0, p.1@))
}

/// Thirty-two zero bytes.
pub open spec fn spec_zero_hash() -> Seq<u8> {
    Seq::new(32, |i: int| 0u8)
}

/// The placeholder self-reference: an all-zero transaction hash, index 0.
pub open spec fn spec_placeholder_coin() -> CoinIdV {
    CoinIdV { txhash: spec_zero_hash(), index: 0 }
}

/// The default output record: zero value, zero address, Mel denomination,
/// no attachment.
pub open spec fn spec_default_output() -> CoinRecordV {
    CoinRecordV {
        covhash: spec_zero_hash(),
        value: 0,
        denom: Denom::Mel,
        additional_data: Seq::empty(),
    }
}

/// A fresh placeholder self-reference coin.
pub fn placeholder_coin() -> (r: CoinId)
    ensures
        r@ == spec_placeholder_coin(),
{
    let mut h: Vec<u8> = Vec::new();
    let mut i: usize = 0;
    while i < 32
        invariant
            i <= 32,
            h@ =~= Seq::new(i as nat, |t: int| 0u8),
        decreases 32 - i,
    {
        h.push(0);
        proof {
            assert(h@ =~= Seq::new((i + 1) as nat, |t: int| 0u8));
        }
        i = i + 1;
    }
    let r = CoinId { txhash: h, index: 0 };
    proof {
        assert(r@.txhash =~= spec_zero_hash());
    }
    r
}

/// A fresh all-zero 32-byte hash.
fn zero_hash() -> (r: Vec<u8>)
    ensures
        r@ == spec_zero_hash(),
{
    let c = placeholder_coin();
    c.txhash
}

/// A fresh default output record.
fn default_output() -> (r: CoinRecord)
    ensures
        r@ == spec_default_output(),
{
    let r = CoinRecord { covhash: zero_hash(), value: 0, denom: Denom::Mel, additional_data: Vec::new() };
    proof {
        assert(r@.additional_data =~= Seq::<u8>::empty());
    }
    r
}

/// Looking the signature-entry views up agrees with looking the entries up.
proof fn lemma_lookup_bytes(m: Seq<(u8, Vec<u8>)>, k: int)
    ensures
        spec_lookup(entries_v_bytes(m), k) == (match spec_lookup(m, k) {
            Some(v) => Some(v@),
            None => None::<Seq<u8>>,
        }),
    decreases m.len(),
{
    if m.len() > 0 {
        assert(entries_v_bytes(m).drop_last() =~= entries_v_bytes(m.drop_last()));
        lemma_lookup_bytes(m.drop_last(), k);
    }
}

/// Looking the output-entry views up agrees with looking the entries up.
proof fn lemma_lookup_coindata(m: Seq<(u8, CoinRecord)>, k: int)
    ensures
        spec_lookup(entries_v_coindata(m), k) == (match spec_lookup(m, k) {
            Some(v) => Some(v@),
            None => None::<CoinRecordV>,
        }),
    decreases m.len(),
{
    if m.len() > 0 {
        assert(entries_v_coindata(m).drop_last() =~= entries_v_coindata(m.drop_last()));
        lemma_lookup_coindata(m.drop_last(), k);
    }
}

/// A present key is found by lookup.
proof fn lemma_lookup_found<VT>(m: Seq<(u8, VT)>, t: int)
    requires
        keys_ascending(m),
        0 <= t < m.len(),
    ensures
        spec_lookup(m, m[t].0 as int) == Some(m[t].1),
    decreases m.len(),
{
    if t < m.len() - 1 {
        assert(m[t].0 < m[m.len() - 1].0);
        assert(keys_ascending(m.drop_last()));
        lemma_lookup_found(m.drop_last(), t);
    }
}

/// An absent key is not found by lookup.
proof fn lemma_lookup_absent<VT>(m: Seq<(u8, VT)>, k: int)
    requires
        forall|t: int| 0 <= t < m.len() ==> m[t].0 != k,
    ensures
        spec_lookup(m, k) is None,
    decreases m.len(),
{
    if m.len() > 0 {
        lemma_lookup_absent(m.drop_last(), k);
    }
}

/// Finds the position of a key in a sorted coin-reference map.
fn find_key_coinid(map: &Vec<(u8, CoinId)>, k: u8) -> (r: Option<usize>)
    requires
        keys_ascending(map@),
    ensures
        match r {
            Some(t) => t < map@.len() && map@[t as int].0 == k && spec_lookup(
                entries_v_coinid(map@),
                k as int,
            ) == Some(map@[t as int].1@),
            None => spec_lookup(entries_v_coinid(map@), k as int) is None,
        },
{
    proof {
        let ev = entries_v_coinid(map@);
        assert forall|a: int, b: int| 0 <= a < b < ev.len() implies ev[a].0 < ev[b].0 by {
            assert(ev[a].0 == map@[a].0);
            assert(ev[b].0 == map@[b].0);
        }
    }
    let mut t: usize = 0;
    #[verifier::loop_isolation(false)]
    while t < map.len()
        invariant
            t <= map@.len(),
            forall|u: int| 0 <= u < t ==> map@[u].0 != k,
        decreases map@.len() - t,
    {
        if map[t].0 == k {
            proof {
                lemma_lookup_found(entries_v_coinid(map@), t as int);
                assert(entries_v_coinid(map@)[t as int] == (map@[t as int].0, map@[t as int].1@));
            }
            return Some(t);
        }
        t = t + 1;
    }
    proof {
        assert forall|u: int| 0 <= u < entries_v_coinid(map@).len() implies entries_v_coinid(
            map@,
        )[u].0 != k by {
            assert(entries_v_coinid(map@)[u].0 == map@[u].0);
        }
        lemma_lookup_absent(entries_v_coinid(map@), k as int);
    }
    None
}

/// A hex digit.
pub open spec fn is_hex_digit(c: char) -> bool {
    (48 <= (c as u32) && (c as u32) <= 57) || (97 <= (c as u32) && (c as u32) <= 102) || (65 <= (
    c as u32) && (c as u32) <= 70)
}

/// The value of a hex digit.
pub open spec fn hex_digit_val(c: char) -> int {
    if 48 <= (c as u32) && (c as u32) <= 57 {
        (c as u32) - 48
    } else if 97 <= (c as u32) && (c as u32) <= 102 {
        (c as u32) - 87
    } else {
        (c as u32) - 55
    }
}

/// A decodable hex string: even length, hex digits throughout.
pub open spec fn spec_hex_valid(s: Seq<char>) -> bool {
    s.len() % 2 == 0 && (forall|i: int| 0 <= i < s.len() ==> is_hex_digit(s[i]))
}

/// The bytes a hex string decodes to, one per digit pair.
pub open spec fn spec_hex_decode(s: Seq<char>) -> Seq<u8> {
    Seq::new((s.len() / 2) as nat, |i: int| (hex_digit_val(s[2 * i]) * 16 + hex_digit_val(s[2 * i + 1])) as u8)
}

/// Relies on `hex::decode`: succeeds exactly on even-length strings of hex
/// digits, upper or lower case, and yields one byte per digit pair, most
/// significant nibble first.
#[verifier::external_body]
fn hex_decode(s: &str) -> (r: Option<Vec<u8>>)
    ensures
        r is Some <==> spec_hex_valid(s@),
        r is Some ==> r.unwrap()@ == spec_hex_decode(s@),
{
    hex::decode(s).ok()
}

/// What an Ed25519 signature over `msg` by the 64-byte secret key `sk` is.
pub uninterp spec fn ed25519_sign_of(sk: Seq<u8>, msg: Seq<u8>) -> Seq<u8>;

/// Relies on `tmelcrypt::Ed25519SK::from_bytes` and `Ed25519SK::sign`:
/// key material parses exactly when it is 64 bytes long, and signing is a
/// deterministic function of key and message.
#[verifier::external_body]
fn ed25519_sign(sk: &Vec<u8>, msg: &Vec<u8>) -> (r: Option<Vec<u8>>)
    ensures
        r is Some <==> sk@.len() == 64,
        r is Some ==> r.unwrap()@ == ed25519_sign_of(sk@, msg@),
{
    let key = tmelcrypt::Ed25519SK::from_bytes(sk)?;
    Some(key.sign(msg))
}

/// What the covenant-address digest of the script bytes is.
pub uninterp spec fn covenant_hash_of(b: Seq<u8>) -> Seq<u8>;

/// Relies on `tmelcrypt::hash_single`: the covenant's address is the
/// 32-byte digest of the script bytes alone.
#[verifier::external_body]
fn covenant_hash(b: &Vec<u8>) -> (r: Vec<u8>)
    ensures
        r@ == covenant_hash_of(b@),
        r@.len() == 32,
{
    tmelcrypt::hash_single(b).0.to_vec()
}

#[verifier::external_type_specification]
#[verifier::external_body]
pub struct ExStfTxKind(themelio_stf::TxKind);

#[verifier::external_type_specification]
#[verifier::external_body]
pub struct ExStfCoinId(themelio_stf::CoinID);

#[verifier::external_type_specification]
#[verifier::external_body]
pub struct ExStfCoinData(themelio_stf::CoinData);

#[verifier::external_type_specification]
#[verifier::external_body]
pub struct ExStfTransaction(themelio_stf::Transaction);

/// Converts the kind tag to `themelio_stf::TxKind`, one arm each.
#[verifier::external_body]
fn to_stf_kind(k: &TransactionKind) -> themelio_stf::TxKind {
    match k {
        TransactionKind::Normal => themelio_stf::TxKind::Normal,
        TransactionKind::Stake => themelio_stf::TxKind::Stake,
        TransactionKind::DoscMint => themelio_stf::TxKind::DoscMint,
        TransactionKind::Swap => themelio_stf::TxKind::Swap,
        TransactionKind::LiqDeposit => themelio_stf::TxKind::LiqDeposit,
        TransactionKind::LiqWithdraw => themelio_stf::TxKind::LiqWithdraw,
        TransactionKind::Faucet => themelio_stf::TxKind::Faucet,
    }
}

/// Converts a coin reference to `themelio_stf::CoinID`, field for field.
#[verifier::external_body]
fn to_stf_coinid(c: &CoinId) -> themelio_stf::CoinID
    requires
        c.txhash@.len() == 32,
{
    let txhash = themelio_stf::TxHash(tmelcrypt::HashVal(c.txhash.as_slice().try_into().unwrap()));
    themelio_stf::CoinID { txhash, index: c.index }
}

/// Converts an output record to `themelio_stf::CoinData`, field for field
/// and denomination arm for arm.
#[verifier::external_body]
fn to_stf_coindata(c: &CoinRecord) -> themelio_stf::CoinData
    requires
        c.covhash@.len() == 32,
{
    let covhash = themelio_stf::melvm::Address(tmelcrypt::HashVal(c.covhash.as_slice().try_into().unwrap()));
    let denom = match c.denom {
        Denom::Mel => themelio_stf::Denom::Mel,
        Denom::Sym => themelio_stf::Denom::Sym,
        Denom::NomDosc => themelio_stf::Denom::NomDosc,
        Denom::NewCoin => themelio_stf::Denom::NewCoin,
        Denom::Custom(h) => themelio_stf::Denom::Custom(themelio_stf::TxHash(tmelcrypt::HashVal(h))),
    };
    let (value, additional_data) = (themelio_stf::CoinValue(c.value), c.additional_data.clone());
    themelio_stf::CoinData { covhash, value, denom, additional_data }
}

/// What the signature-free content hash of a transaction is.
pub uninterp spec fn hash_nosigs_of(tx: DenseTransactionV) -> Seq<u8>;

/// Relies on `themelio_stf::Transaction::hash_nosigs`: the 32-byte digest
/// of the signature-free transaction content, a function of that content
/// alone.
#[verifier::external_body]
fn tx_hash_nosigs(tx: &DenseTransaction) -> (r: Vec<u8>)
    requires
        tx.sigs@.len() == 0,
        forall|i: int| 0 <= i < tx.inputs@.len() ==> (#[trigger] tx.inputs@[i]).txhash@.len() == 32,
        forall|i: int|
            0 <= i < tx.outputs@.len() ==> (#[trigger] tx.outputs@[i]).covhash@.len() == 32,
    ensures
        r@ == hash_nosigs_of(tx@),
        r@.len() == 32,
{
    let stf = themelio_stf::Transaction {
        kind: to_stf_kind(&tx.kind),
        inputs: tx.inputs.iter().map(to_stf_coinid).collect(),
        outputs: tx.outputs.iter().map(to_stf_coindata).collect(),
        fee: themelio_stf::CoinValue(tx.fee),
        scripts: tx.covenants.iter().map(|c| themelio_stf::melvm::Covenant(c.clone())).collect(),
        data: tx.data.clone(),
        sigs: Vec::new(),
    };
    stf.hash_nosigs().0 .0.to_vec()
}

/// The signature entries derived from the signer map: each well-formed key
/// (even-length hex decoding to 64 bytes) contributes a signature over
/// `h`; malformed key material is silently skipped.
pub open spec fn spec_sig_entries(ss: Seq<(u8, Seq<char>)>, h: Seq<u8>) -> Seq<(u8, Seq<u8>)>
    decreases ss.len(),
{
    if ss.len() == 0 {
        Seq::empty()
    } else {
        let pre = spec_sig_entries(ss.drop_last(), h);
        let last = ss[ss.len() - 1];
        if spec_hex_valid(last.1) && spec_hex_decode(last.1).len() == 64 {
            pre + seq![(last.0, ed25519_sign_of(spec_hex_decode(last.1), h))]
        } else {
            pre
        }
    }
}

/// A clone of a byte vector carries the same bytes.
proof fn lemma_cloned_bytes(a: Vec<u8>, b: Vec<u8>)
    requires
        cloned(a, b),
    ensures
        b@ == a@,
{
    if a == b {
    } else {
        assert(call_ensures(<Vec<u8> as Clone>::clone, (&a,), b));
        assert forall|i: int| 0 <= i < a@.len() implies a@[i] == b@[i] by {
            assert(cloned::<u8>(a[i], b[i]));
        }
        assert(a@ =~= b@);
    }
}

/// A clone of an output record carries the same view.
proof fn lemma_cloned_coindata(a: CoinRecord, b: CoinRecord)
    requires
        cloned(a, b),
    ensures
        b@ == a@,
{
    if a == b {
    } else {
        assert(call_ensures(CoinRecord::clone, (&a,), b));
    }
}

/// Builds the dense signature list for the signer map over the message
/// hash `h`: hex-decodes each key, skips malformed material, signs with
/// every 64-byte key, and densifies by signer position with the empty
/// signature as default.
pub fn signatures_for(signers: &Vec<(u8, String)>, h: &Vec<u8>) -> (r: Vec<Vec<u8>>)
    requires
        keys_ascending(signers@),
    ensures
        r@.map_values(|v: Vec<u8>| v@) == spec_densify(
            spec_sig_entries(entries_v_str(signers@), h@),
            Seq::<u8>::empty(),
        ),
{
    let ghost ssv = entries_v_str(signers@);
    proof {
        assert forall|a: int, b: int| 0 <= a < b < ssv.len() implies ssv[a].0 < ssv[b].0 by {
            assert(ssv[a].0 == signers@[a].0);
            assert(ssv[b].0 == signers@[b].0);
        }
    }
    let mut entries: Vec<(u8, Vec<u8>)> = Vec::new();
    let mut j: usize = 0;
    #[verifier::loop_isolation(false)]
    while j < signers.len()
        invariant
            j <= signers@.len(),
            entries_v_bytes(entries@) =~= spec_sig_entries(ssv.take(j as int), h@),
            keys_ascending(entries@),
            j == 0 ==> entries@.len() == 0,
            j > 0 ==> forall|t: int|
                0 <= t < entries@.len() ==> #[trigger] entries@[t].0 <= ssv[j - 1].0,
        decreases signers@.len() - j,
    {
        let key_pos = signers[j].0;
        let decoded = hex_decode(signers[j].1.as_str());
        let ghost pre = spec_sig_entries(ssv.take(j as int), h@);
        let ghost pre_entries = entries@;
        proof {
            assert(ssv.take(j + 1).drop_last() =~= ssv.take(j as int));
            assert(ssv.take(j + 1)[ssv.take(j + 1).len() - 1] == ssv[j as int]);
            assert(ssv[j as int].0 == signers@[j as int].0);
            if j > 0 {
                assert(ssv[j - 1].0 == signers@[j - 1].0);
                assert(signers@[j - 1].0 < signers@[j as int].0);
            }
        }
        match decoded {
            Some(sk) => {
                match ed25519_sign(&sk, h) {
                    Some(sig) => {
                        entries.push((key_pos, sig));
                        proof {
                            assert(entries_v_bytes(entries@) =~= pre.push(
                                (key_pos, ed25519_sign_of(spec_hex_decode(ssv[j as int].1), h@)),
                            ));
                            assert(spec_sig_entries(ssv.take(j + 1), h@) =~= pre + seq![
                                (
                                    ssv[j as int].0,
                                    ed25519_sign_of(spec_hex_decode(ssv[j as int].1), h@),
                                ),
                            ]);
                            assert forall|a: int, b: int|
                                0 <= a < b < entries@.len() implies entries@[a].0
                                < entries@[b].0 by {
                                if b == entries@.len() - 1 {
                                    assert(entries@[a] == pre_entries[a]);
                                }
                            }
                        }
                    },
                    None => {
                        proof {
                            assert(spec_sig_entries(ssv.take(j + 1), h@) =~= pre);
                        }
                    },
                }
            },
            None => {
                proof {
                    assert(spec_sig_entries(ssv.take(j + 1), h@) =~= pre);
                }
            },
        }
        j = j + 1;
    }
    proof {
        assert(ssv.take(j as int) =~= ssv);
    }
    let empty_sig: Vec<u8> = Vec::new();
    let dense = map_to_vec(&entries, &empty_sig);
    proof {
        let ev = entries_v_bytes(entries@);
        let target = spec_densify(ev, Seq::<u8>::empty());
        assert(ev.len() == entries@.len());
        if entries@.len() > 0 {
            assert(ev[ev.len() - 1].0 == entries@[entries@.len() - 1].0);
        }
        assert(dense_len(ev) == dense_len(entries@));
        assert forall|i: int| 0 <= i < dense@.len() implies #[trigger] dense@[i]@ == target[i] by {
            assert(cloned(spec_dense_at(entries@, empty_sig, i), dense@[i]));
            lemma_cloned_bytes(spec_dense_at(entries@, empty_sig, i), dense@[i]);
            lemma_lookup_bytes(entries@, i);
        }
        assert(dense@.map_values(|v: Vec<u8>| v@) =~= target);
    }
    dense
}

/// The draft transaction a scenario synthesizes before signing: densified
/// inputs with the placeholder overwrite, densified outputs, zero fee, the
/// compiled covenant as single script, the scenario's data blob, and no
/// signatures yet.
pub open spec fn spec_draft_tx(covenant: Seq<u8>, sc: &SpendContext) -> DenseTransactionV {
    DenseTransactionV {
        kind: sc.spender_txkind,
        inputs: spec_densify(
            spec_insert(
                entries_v_coinid(sc.spender_other_inputs@),
                sc.spender_index,
                spec_placeholder_coin(),
            ),
            spec_placeholder_coin(),
        ),
        outputs: spec_densify(entries_v_coindata(sc.spender_output@), spec_default_output()),
        fee: 0,
        covenants: seq![covenant],
        data: sc.spender_data@,
        sigs: Seq::empty(),
    }
}

/// A lookup in a map whose values all carry 32-byte hashes yields such a
/// value.
proof fn lemma_lookup_covhash_len(m: Seq<(u8, CoinRecordV)>, k: int)
    requires
        forall|t: int| 0 <= t < m.len() ==> (#[trigger] m[t]).1.covhash.len() == 32,
    ensures
        spec_lookup(m, k) is Some ==> spec_lookup(m, k).unwrap().covhash.len() == 32,
    decreases m.len(),
{
    if m.len() > 0 {
        lemma_lookup_covhash_len(m.drop_last(), k);
    }
}

impl EnvFile {
    /// Synthesizes the complete execution context: the placeholder
    /// self-reference overwrites any user entry at `spender_index`, the
    /// input and output maps are densified with their defaults, the single
    /// script is the compiled covenant, the draft's own signature-free
    /// content hash is co-signed by every well-formed signer key, and the
    /// parent coin and header receive their fixed synthetic values.
    pub fn from_spend_context(covenant: &Vec<u8>, sc: &SpendContext) -> (r: EnvFile)
        requires
            sc.wf(),
        ensures
            r.spender_tx.kind == sc.spender_txkind,
            r.spender_tx.inputs@.map_values(|c: CoinId| c@) == spec_densify(
                spec_insert(
                    entries_v_coinid(sc.spender_other_inputs@),
                    sc.spender_index,
                    spec_placeholder_coin(),
                ),
                spec_placeholder_coin(),
            ),
            r.spender_tx.outputs@.map_values(|c: CoinRecord| c@) == spec_densify(
                entries_v_coindata(sc.spender_output@),
                spec_default_output(),
            ),
            r.spender_tx.fee == 0,
            r.spender_tx.covenants@.map_values(|v: Vec<u8>| v@) == seq![covenant@],
            r.spender_tx.data@ == sc.spender_data@,
            r.spender_tx.sigs@.map_values(|v: Vec<u8>| v@) == spec_densify(
                spec_sig_entries(
                    entries_v_str(sc.ed25519_signers@),
                    hash_nosigs_of(spec_draft_tx(covenant@, sc)),
                ),
                Seq::<u8>::empty(),
            ),
            r.environment.parent_coinid@ == spec_placeholder_coin(),
            r.environment.parent_cdh.height == 1000,
            r.environment.parent_cdh.coin_data@.covhash == covenant_hash_of(covenant@),
            r.environment.parent_cdh.coin_data@.value == sc.parent_value,
            r.environment.parent_cdh.coin_data@.denom == sc.parent_denom,
            r.environment.parent_cdh.coin_data@.additional_data == sc.parent_additional_data@,
            r.environment.spender_index == sc.spender_index,
            r.environment.last_header.network == 5,
            r.environment.last_header.previous@ == spec_zero_hash(),
            r.environment.last_header.height == 2000,
            r.environment.last_header.history_hash@ == spec_zero_hash(),
            r.environment.last_header.coins_hash@ == spec_zero_hash(),
            r.environment.last_header.transactions_hash@ == spec_zero_hash(),
            r.environment.last_header.fee_pool == 10000,
            r.environment.last_header.fee_multiplier == 10000,
            r.environment.last_header.dosc_speed == 100000,
            r.environment.last_header.pools_hash@ == spec_zero_hash(),
            r.environment.last_header.stakes_hash@ == spec_zero_hash(),
    {
        let ghost miv = spec_insert(
            entries_v_coinid(sc.spender_other_inputs@),
            sc.spender_index,
            spec_placeholder_coin(),
        );
        let idx = sc.spender_index;
        let mut n_in: usize = idx as usize + 1;
        let m = &sc.spender_other_inputs;
        if m.len() > 0 {
            let last_key = m[m.len() - 1].0;
            if last_key as usize + 1 > n_in {
                n_in = last_key as usize + 1;
            }
        }
        proof {
            let ev = entries_v_coinid(sc.spender_other_inputs@);
            assert forall|a: int, b: int| 0 <= a < b < ev.len() implies ev[a].0 < ev[b].0 by {
                assert(ev[a].0 == sc.spender_other_inputs@[a].0);
                assert(ev[b].0 == sc.spender_other_inputs@[b].0);
            }
            lemma_insert_lookup(ev, idx, spec_placeholder_coin(), 0);
            if sc.spender_other_inputs@.len() > 0 {
                assert(ev[ev.len() - 1].0 == sc.spender_other_inputs@[ev.len() - 1].0);
            }
            assert(dense_len(miv) == n_in);
        }
        let mut inputs: Vec<CoinId> = Vec::new();
        let mut i: usize = 0;
        #[verifier::loop_isolation(false)]
        while i < n_in
            invariant
                i <= n_in,
                n_in <= 256,
                keys_ascending(entries_v_coinid(sc.spender_other_inputs@)),
                inputs@.len() == i,
                forall|t: int|
                    0 <= t < i ==> #[trigger] inputs@[t]@ == spec_dense_at(
                        miv,
                        spec_placeholder_coin(),
                        t,
                    ),
                forall|t: int| 0 <= t < i ==> (#[trigger] inputs@[t]).txhash@.len() == 32,
            decreases n_in - i,
        {
            proof {
                lemma_insert_lookup(
                    entries_v_coinid(sc.spender_other_inputs@),
                    idx,
                    spec_placeholder_coin(),
                    i as int,
                );
                assert(i < 256);
            }
            if i == idx as usize {
                inputs.push(placeholder_coin());
            } else {
                match find_key_coinid(m, i as u8) {
                    Some(t) => {
                        let c = m[t].1.clone();
                        inputs.push(c);
                    },
                    None => {
                        inputs.push(placeholder_coin());
                    },
                }
            }
            i = i + 1;
        }
        let dflt = default_output();
        let outputs = map_to_vec(&sc.spender_output, &dflt);
        let mut covenants: Vec<Vec<u8>> = Vec::new();
        covenants.push(covenant.clone());
        let draft = DenseTransaction {
            kind: sc.spender_txkind,
            inputs,
            outputs,
            fee: 0,
            covenants,
            data: sc.spender_data.clone(),
            sigs: Vec::new(),
        };
        proof {
            assert forall|t: int| 0 <= t < draft.inputs@.len() implies draft
                .inputs@
                .map_values(|c: CoinId| c@)[t] == spec_dense_at(
                miv,
                spec_placeholder_coin(),
                t,
            ) by {
                assert(draft.inputs@[t]@ == spec_dense_at(miv, spec_placeholder_coin(), t));
            }
            assert(draft.inputs@.map_values(|c: CoinId| c@) =~= spec_densify(
                miv,
                spec_placeholder_coin(),
            ));
            let mo = entries_v_coindata(sc.spender_output@);
            assert(dense_len(mo) == dense_len(sc.spender_output@));
            assert forall|t: int| 0 <= t < draft.outputs@.len() implies #[trigger] draft
                .outputs@[t]@ == spec_dense_at(mo, spec_default_output(), t) by {
                assert(cloned(spec_dense_at(sc.spender_output@, dflt, t), draft.outputs@[t]));
                lemma_cloned_coindata(spec_dense_at(sc.spender_output@, dflt, t), draft.outputs@[t]);
                lemma_lookup_coindata(sc.spender_output@, t);
            }
            assert forall|t: int| 0 <= t < draft.outputs@.len() implies draft
                .outputs@
                .map_values(|c: CoinRecord| c@)[t] == spec_dense_at(mo, spec_default_output(), t) by {
                assert(draft.outputs@[t]@ == spec_dense_at(mo, spec_default_output(), t));
            }
            assert(draft.outputs@.map_values(|c: CoinRecord| c@) =~= spec_densify(
                mo,
                spec_default_output(),
            ));
            assert(draft.covenants@.map_values(|v: Vec<u8>| v@) =~= seq![covenant@]);
            assert(draft.data@ =~= sc.spender_data@);
            assert(draft.sigs@.map_values(|v: Vec<u8>| v@) =~= Seq::<Seq<u8>>::empty());
            assert(draft@ == spec_draft_tx(covenant@, sc));
            assert forall|t: int|
                0 <= t < draft.outputs@.len() implies (#[trigger] draft.outputs@[t]).covhash@.len()
                == 32 by {
                assert forall|u: int| 0 <= u < mo.len() implies (#[trigger] mo[u]).1.covhash.len()
                    == 32 by {
                    assert(mo[u].1 == sc.spender_output@[u].1@);
                }
                lemma_lookup_covhash_len(mo, t);
            }
        }
        let h = tx_hash_nosigs(&draft);
        proof {
            assert(h@ == hash_nosigs_of(spec_draft_tx(covenant@, sc)));
        }
        let sigs = signatures_for(&sc.ed25519_signers, &h);
        let mut tx = draft;
        tx.sigs = sigs;
        let environment = CovenantEnv {
            parent_coinid: placeholder_coin(),
            parent_cdh: CoinDataHeight {
                height: 1000,
                coin_data: CoinRecord {
                    covhash: covenant_hash(covenant),
                    value: sc.parent_value,
                    denom: sc.parent_denom,
                    additional_data: sc.parent_additional_data.clone(),
                },
            },
            spender_index: sc.spender_index,
            last_header: Header {
                network: 5,
                previous: zero_hash(),
                height: 2000,
                history_hash: zero_hash(),
                coins_hash: zero_hash(),
                transactions_hash: zero_hash(),
                fee_pool: 10000,
                fee_multiplier: 10000,
                dosc_speed: 100000,
                pools_hash: zero_hash(),
                stakes_hash: zero_hash(),
            },
        };
        let r = EnvFile { spender_tx: tx, environment };
        proof {
            assert(r.spender_tx.inputs@.map_values(|c: CoinId| c@) =~= spec_densify(
                miv,
                spec_placeholder_coin(),
            ));
            assert(r.spender_tx.outputs@.map_values(|c: CoinRecord| c@) =~= spec_densify(
                entries_v_coindata(sc.spender_output@),
                spec_default_output(),
            ));
            assert(r.spender_tx.covenants@.map_values(|v: Vec<u8>| v@) =~= seq![covenant@]);
            assert(r.environment.parent_cdh.coin_data@.additional_data =~= sc
                .parent_additional_data@);
        }
        r
    }
}

/// Law: the densified input list always holds the placeholder
/// self-reference at `spender_index`, whatever the user supplied at that
/// position.
pub proof fn lemma_self_index_overwritten(sc: SpendContext, inputs: Seq<CoinIdV>)
    requires
        sc.wf(),
        inputs == spec_densify(
            spec_insert(
                entries_v_coinid(sc.spender_other_inputs@),
                sc.spender_index,
                spec_placeholder_coin(),
            ),
            spec_placeholder_coin(),
        ),
    ensures
        sc.spender_index < inputs.len(),
        inputs[sc.spender_index as int] == spec_placeholder_coin(),
{
    lemma_insert_lookup(
        entries_v_coinid(sc.spender_other_inputs@),
        sc.spender_index,
        spec_placeholder_coin(),
        0,
    );
}

} // verus!

