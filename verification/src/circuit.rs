use vstd::arithmetic::div_mod::{lemma_add_mod_noop, lemma_mod_twice, lemma_sub_mod_noop};
use vstd::prelude::*;

verus! {

/// The total a participant gave out: the sum of one score row.
pub open spec fn sum_given(row: Seq<u8>) -> int
    decreases row.len(),
{
    if row.len() == 0 {
        0
    } else {
        row[0] + sum_given(row.drop_first())
    }
}

/// The total a participant received: the sum of one column of the score
/// matrix.
pub open spec fn sum_received(m: Seq<Seq<u8>>, col: int) -> int
    decreases m.len(),
{
    if m.len() == 0 {
        0
    } else {
        m[0][col] + sum_received(m.drop_first(), col)
    }
}

/// What the circuit computes for participant `i`, under the ciphertext's
/// 8-bit modular arithmetic: everything the others allocated to `i`, minus
/// everything `i` allocated, modulo 256.
pub open spec fn net_balance(m: Seq<Seq<u8>>, i: int) -> u8 {
    ((sum_received(m, i) - sum_given(m[i])) % 256) as u8
}

proof fn lemma_sum_given_push(row: Seq<u8>, x: u8)
    ensures
        sum_given(row.push(x)) == sum_given(row) + x,
    decreases row.len(),
{
    if row.len() == 0 {
        assert(row.push(x).drop_first() =~= row);
    } else {
        assert(row.push(x).drop_first() =~= row.drop_first().push(x));
        lemma_sum_given_push(row.drop_first(), x);
    }
}

proof fn lemma_sum_received_push(m: Seq<Seq<u8>>, row: Seq<u8>, col: int)
    ensures
        sum_received(m.push(row), col) == sum_received(m, col) + row[col],
    decreases m.len(),
{
    if m.len() == 0 {
        assert(m.push(row).drop_first() =~= m);
    } else {
        assert(m.push(row).drop_first() =~= m.drop_first().push(row));
        lemma_sum_received_push(m.drop_first(), row, col);
    }
}

/// The sum of one score row, under wrapping 8-bit arithmetic.
pub fn sum_row(row: &Vec<u8>) -> (s: u8)
    ensures
        s == sum_given(row@) % 256,
{
    let mut s: u8 = 0;
    let mut i: usize = 0;
    proof {
        assert(row@.subrange(0, 0) =~= Seq::<u8>::empty());
    }
    while i < row.len()
        invariant
            i <= row@.len(),
            s == sum_given(row@.subrange(0, i as int)) % 256,
        decreases row@.len() - i,
    {
        proof {
            let pre = row@.subrange(0, i as int);
            assert(row@.subrange(0, i as int + 1) =~= pre.push(row@[i as int]));
            lemma_sum_given_push(pre, row@[i as int]);
            lemma_add_mod_noop(sum_given(pre), row@[i as int] as int, 256);
            lemma_mod_twice(sum_given(pre), 256);
        }
        s = s.wrapping_add(row[i]);
        i += 1;
    }
    proof {
        assert(row@.subrange(0, row@.len() as int) =~= row@);
    }
    s
}

/// The sum of one column of the score matrix, under wrapping 8-bit
/// arithmetic.
pub fn sum_column(m: &Vec<Vec<u8>>, col: usize) -> (s: u8)
    requires
        forall|i: int| 0 <= i < m@.len() ==> col < (#[trigger] m@[i])@.len(),
    ensures
        s == sum_received(m.deep_view(), col as int) % 256,
{
    let mut s: u8 = 0;
    let mut i: usize = 0;
    proof {
        assert(m.deep_view().subrange(0, 0) =~= Seq::<Seq<u8>>::empty());
    }
    while i < m.len()
        invariant
            i <= m@.len(),
            forall|j: int| 0 <= j < m@.len() ==> col < (#[trigger] m@[j])@.len(),
            s == sum_received(m.deep_view().subrange(0, i as int), col as int) % 256,
        decreases m@.len() - i,
    {
        proof {
            let pre = m.deep_view().subrange(0, i as int);
            assert(m.deep_view().subrange(0, i as int + 1) =~= pre.push(m.deep_view()[i as int]));
            assert(m.deep_view()[i as int] == m@[i as int]@);
            lemma_sum_received_push(pre, m.deep_view()[i as int], col as int);
            lemma_add_mod_noop(sum_received(pre, col as int), m@[i as int]@[col as int] as int, 256);
            lemma_mod_twice(sum_received(pre, col as int), 256);
        }
        s = s.wrapping_add(m[i][col]);
        i += 1;
    }
    proof {
        assert(m.deep_view().subrange(0, m@.len() as int) =~= m.deep_view());
    }
    s
}

/// The plaintext meaning of the circuit: given the full N-by-N score matrix
/// (row `i` is what participant `i` allocated to each participant), the net
/// balance of every participant under 8-bit wraparound. The homomorphic
/// evaluation reproduces exactly this map over encrypted rows.
pub fn net_balances(scores: &Vec<Vec<u8>>) -> (r: Vec<u8>)
    requires
        forall|i: int| 0 <= i < scores@.len() ==> (#[trigger] scores@[i])@.len() == scores@.len(),
    ensures
        r@.len() == scores@.len(),
        forall|i: int| 0 <= i < r@.len() ==> r@[i] == net_balance(scores.deep_view(), i),
{
    let n = scores.len();
    let mut outs: Vec<u8> = Vec::new();
    let mut i: usize = 0;
    while i < n
        invariant
            i <= n,
            n == scores@.len(),
            forall|j: int| 0 <= j < scores@.len() ==> (#[trigger] scores@[j])@.len()
                == scores@.len(),
            outs@.len() == i,
            forall|j: int| 0 <= j < i ==> outs@[j] == net_balance(scores.deep_view(), j),
        decreases n - i,
    {
        let received = sum_column(scores, i);
        let given = sum_row(&scores[i]);
        let out = received.wrapping_sub(given);
        proof {
            let m = scores.deep_view();
            let r_tot = sum_received(m, i as int);
            let g_tot = sum_given(m[i as int]);
            assert(m[i as int] == scores@[i as int]@);
            lemma_sub_mod_noop(r_tot, g_tot, 256);
            lemma_mod_twice(r_tot - g_tot, 256);
            assert(out == (r_tot - g_tot) % 256);
        }
        outs.push(out);
        i += 1;
    }
    outs
}

/// `w` can be the left-to-right fold, under `hom_add`, of the slot-`i`
/// extractions of the first `upto` switched batches, in batch order: the
/// "received" sum of participant `i`.
pub open spec fn folds_received<BT, WD, EX: Fn(&BT, usize) -> WD, AD: Fn(&WD, &WD) -> WD>(
    switched: Seq<BT>,
    i: int,
    upto: int,
    extract: EX,
    hom_add: AD,
    w: WD,
) -> bool
    decreases upto,
{
    if upto == 1 {
        call_ensures(extract, (&switched[0], i as usize), w)
    } else if upto > 1 {
        exists|prev: WD, x: WD|
            {
                &&& folds_received(switched, i, upto - 1, extract, hom_add, prev)
                &&& call_ensures(extract, (&switched[upto - 1], i as usize), x)
                &&& #[trigger] call_ensures(hom_add, (&prev, &x), w)
            }
    } else {
        false
    }
}

/// `w` can be the left-to-right fold, under `hom_add`, of the extractions of
/// slots `0..upto` of participant `owner`'s own batch: the "given" sum of
/// participant `owner`.
pub open spec fn folds_given<BT, WD, EX: Fn(&BT, usize) -> WD, AD: Fn(&WD, &WD) -> WD>(
    switched: Seq<BT>,
    owner: int,
    upto: int,
    extract: EX,
    hom_add: AD,
    w: WD,
) -> bool
    decreases upto,
{
    if upto == 1 {
        call_ensures(extract, (&switched[owner], 0usize), w)
    } else if upto > 1 {
        exists|prev: WD, x: WD|
            {
                &&& folds_given(switched, owner, upto - 1, extract, hom_add, prev)
                &&& call_ensures(extract, (&switched[owner], (upto - 1) as usize), x)
                &&& #[trigger] call_ensures(hom_add, (&prev, &x), w)
            }
    } else {
        false
    }
}

/// `w` is wired as participant `i`'s output: the subtraction of `i`'s
/// received sum (slot `i` of every batch, in batch order) and `i`'s given
/// sum (every slot of `i`'s own batch, in slot order).
pub open spec fn wires_output<BT, WD, EX: Fn(&BT, usize) -> WD, AD: Fn(&WD, &WD) -> WD, SU: Fn(
    &WD,
    &WD,
) -> WD>(
    switched: Seq<BT>,
    i: int,
    extract: EX,
    hom_add: AD,
    hom_sub: SU,
    w: WD,
) -> bool {
    exists|received: WD, given: WD|
        {
            &&& folds_received(switched, i, switched.len() as int, extract, hom_add, received)
            &&& folds_given(switched, i, switched.len() as int, extract, hom_add, given)
            &&& #[trigger] call_ensures(hom_sub, (&received, &given), w)
        }
}

/// `outs` is wired as the whole circuit's output: some re-keying of every
/// batch under its owner's id, and per participant the received-minus-given
/// subtraction over it.
pub open spec fn wires_circuit<
    CT,
    BT,
    WD,
    KS: Fn(&CT, usize) -> BT,
    EX: Fn(&BT, usize) -> WD,
    AD: Fn(&WD, &WD) -> WD,
    SU: Fn(&WD, &WD) -> WD,
>(
    ciphers: Seq<CT>,
    key_switch: KS,
    extract: EX,
    hom_add: AD,
    hom_sub: SU,
    outs: Seq<WD>,
) -> bool {
    exists|switched: Seq<BT>|
        {
            &&& switched.len() == ciphers.len()
            &&& forall|j: int|
                0 <= j < ciphers.len() ==> call_ensures(
                    key_switch,
                    (&ciphers[j], j as usize),
                    #[trigger] switched[j],
                )
            &&& forall|i: int|
                0 <= i < outs.len() ==> wires_output(
                    switched,
                    i,
                    extract,
                    hom_add,
                    hom_sub,
                    #[trigger] outs[i],
                )
        }
}

/// One participant's output word: slot `i` of every re-keyed batch is
/// extracted and summed (what the others allocated to `i`), every slot of
/// `i`'s own batch is extracted and summed (what `i` allocated), and the
/// two sums are subtracted. The contract pins this wiring exactly; the
/// word values themselves are whatever the handed-in primitives compute.
/// Independent across participants, so a caller may run it for every `i`
/// in parallel over one shared slice of re-keyed batches.
pub fn evaluate_output<BT, WD, EX, AD, SU>(
    switched: &Vec<BT>,
    i: usize,
    extract: EX,
    hom_add: AD,
    hom_sub: SU,
) -> (r: WD) where
    EX: Fn(&BT, usize) -> WD,
    AD: Fn(&WD, &WD) -> WD,
    SU: Fn(&WD, &WD) -> WD,

    requires
        switched@.len() >= 1,
        i < switched@.len(),
        forall|b: &BT, k: usize| call_requires(extract, (b, k)),
        forall|a: &WD, b: &WD| call_requires(hom_add, (a, b)),
        forall|a: &WD, b: &WD| call_requires(hom_sub, (a, b)),
    ensures
        wires_output(switched@, i as int, extract, hom_add, hom_sub, r),
{
    let n = switched.len();
    // Everything the others allocated to participant i: slot i of every
    // batch.
    let mut received = extract(&switched[0], i);
    let mut j: usize = 1;
    while j < n
        invariant
            n == switched@.len(),
            1 <= j <= n,
            i < n,
            folds_received(switched@, i as int, j as int, extract, hom_add, received),
            forall|b: &BT, k: usize| call_requires(extract, (b, k)),
            forall|a: &WD, b: &WD| call_requires(hom_add, (a, b)),
        decreases n - j,
    {
        let x = extract(&switched[j], i);
        let next = hom_add(&received, &x);
        proof {
            assert(call_ensures(hom_add, (&received, &x), next));
            assert(folds_received(switched@, i as int, j + 1, extract, hom_add, next));
        }
        received = next;
        j += 1;
    }
    // Everything participant i allocated: every slot of its own batch.
    let mut given = extract(&switched[i], 0);
    let mut k: usize = 1;
    while k < n
        invariant
            n == switched@.len(),
            1 <= k <= n,
            i < n,
            folds_given(switched@, i as int, k as int, extract, hom_add, given),
            forall|b: &BT, kk: usize| call_requires(extract, (b, kk)),
            forall|a: &WD, b: &WD| call_requires(hom_add, (a, b)),
        decreases n - k,
    {
        let x = extract(&switched[i], k);
        let next = hom_add(&given, &x);
        proof {
            assert(call_ensures(hom_add, (&given, &x), next));
            assert(folds_given(switched@, i as int, k + 1, extract, hom_add, next));
        }
        given = next;
        k += 1;
    }
    let out = hom_sub(&received, &given);
    proof {
        assert(call_ensures(hom_sub, (&received, &given), out));
    }
    out
}

/// The homomorphic evaluation, as pure orchestration: given one re-keyable
/// ciphertext batch per participant and the four primitive operations of the
/// FHE capability, compute one output word per participant,
/// `output[i] = (sum over j of slot i of batch j) - (sum over k of slot k of
/// batch i)` — everything allocated to `i`, minus everything `i` allocated.
/// This is the encrypted counterpart of [`net_balances`]; the primitives are
/// handed in as functions because the capability's batch and word types are
/// chosen by the caller, and the contract pins the whole dataflow through
/// them. Each output comes from one [`evaluate_output`] call; a caller after
/// throughput re-keys once and maps [`evaluate_output`] across participants
/// on a worker pool instead.
pub fn evaluate_circuit<CT, BT, WD, KS, EX, AD, SU>(
    ciphers: &Vec<CT>,
    key_switch: KS,
    extract: EX,
    hom_add: AD,
    hom_sub: SU,
) -> (r: Vec<WD>) where
    KS: Fn(&CT, usize) -> BT,
    EX: Fn(&BT, usize) -> WD + Copy,
    AD: Fn(&WD, &WD) -> WD + Copy,
    SU: Fn(&WD, &WD) -> WD + Copy,

    requires
        ciphers@.len() >= 1,
        forall|c: &CT, i: usize| call_requires(key_switch, (c, i)),
        forall|b: &BT, i: usize| call_requires(extract, (b, i)),
        forall|a: &WD, b: &WD| call_requires(hom_add, (a, b)),
        forall|a: &WD, b: &WD| call_requires(hom_sub, (a, b)),
    ensures
        r@.len() == ciphers@.len(),
        wires_circuit(ciphers@, key_switch, extract, hom_add, hom_sub, r@),
{
    let n = ciphers.len();
    // Re-key each participant's batch from its own secret to the protocol's
    // ideal secret, naming the batch's owner.
    let mut switched: Vec<BT> = Vec::new();
    let mut j: usize = 0;
    while j < n
        invariant
            n == ciphers@.len(),
            j <= n,
            switched@.len() == j,
            forall|jj: int|
                0 <= jj < j ==> call_ensures(
                    key_switch,
                    (&ciphers@[jj], jj as usize),
                    #[trigger] switched@[jj],
                ),
            forall|c: &CT, i: usize| call_requires(key_switch, (c, i)),
        decreases n - j,
    {
        let b = key_switch(&ciphers[j], j);
        switched.push(b);
        j += 1;
    }
    let mut outs: Vec<WD> = Vec::new();
    let mut i: usize = 0;
    while i < n
        invariant
            n == ciphers@.len(),
            n >= 1,
            switched@.len() == n,
            i <= n,
            outs@.len() == i,
            forall|jj: int|
                0 <= jj < n ==> call_ensures(
                    key_switch,
                    (&ciphers@[jj], jj as usize),
                    #[trigger] switched@[jj],
                ),
            forall|ii: int|
                0 <= ii < i ==> wires_output(
                    switched@,
                    ii,
                    extract,
                    hom_add,
                    hom_sub,
                    #[trigger] outs@[ii],
                ),
            forall|b: &BT, k: usize| call_requires(extract, (b, k)),
            forall|a: &WD, b: &WD| call_requires(hom_add, (a, b)),
            forall|a: &WD, b: &WD| call_requires(hom_sub, (a, b)),
        decreases n - i,
    {
        let w = evaluate_output(&switched, i, extract, hom_add, hom_sub);
        outs.push(w);
        i += 1;
    }
    proof {
        let sw = switched@;
        assert(wires_circuit(ciphers@, key_switch, extract, hom_add, hom_sub, outs@)) by {
            assert(sw.len() == ciphers@.len());
            assert(forall|jj: int|
                0 <= jj < ciphers@.len() ==> call_ensures(
                    key_switch,
                    (&ciphers@[jj], jj as usize),
                    #[trigger] sw[jj],
                ));
            assert(forall|ii: int|
                0 <= ii < outs@.len() ==> wires_output(
                    sw,
                    ii,
                    extract,
                    hom_add,
                    hom_sub,
                    #[trigger] outs@[ii],
                ));
        }
    }
    outs
}

} // verus!
