use vstd::prelude::*;
use rand::seq::SliceRandom;
use rand::Rng;
use crate::encoding::push_char;
use crate::error::TextError;

verus! {

broadcast use vstd::seq_lib::group_to_multiset_ensures;

/// What a generated password is made of.
pub struct GenPassOpts {
    /// Length of the password.
    pub length: u8,
    pub uppercase: bool,
    pub lowercase: bool,
    pub number: bool,
    pub symbol: bool,
}

pub open spec fn upper_chars() -> Seq<u8> {
    Seq::new(26, |i: int| (65 + i) as u8)
}

pub open spec fn lower_chars() -> Seq<u8> {
    Seq::new(26, |i: int| (97 + i) as u8)
}

/// The digits `1` to `9`.
pub open spec fn number_chars() -> Seq<u8> {
    Seq::new(9, |i: int| (49 + i) as u8)
}

/// The symbols `!@#$%^&*_`.
pub open spec fn symbol_chars() -> Seq<u8> {
    seq![33u8, 64u8, 35u8, 36u8, 37u8, 94u8, 38u8, 42u8, 95u8]
}

pub open spec fn class_if(on: bool, set: Seq<u8>) -> Seq<u8> {
    if on {
        set
    } else {
        Seq::empty()
    }
}

/// The characters that the options allow.
pub open spec fn allowed_chars(o: GenPassOpts) -> Seq<u8> {
    class_if(o.uppercase, upper_chars()) + class_if(o.lowercase, lower_chars()) + class_if(
        o.number,
        number_chars(),
    ) + class_if(o.symbol, symbol_chars())
}

/// How many character classes the options select.
pub open spec fn class_count(o: GenPassOpts) -> nat {
    (if o.uppercase { 1nat } else { 0nat }) + (if o.lowercase { 1nat } else { 0nat }) + (if o.number {
        1nat
    } else {
        0nat
    }) + (if o.symbol { 1nat } else { 0nat })
}

/// Whether some character of `p` is in `set`.
pub open spec fn has_one_of(p: Seq<u8>, set: Seq<u8>) -> bool {
    exists|k: int| 0 <= k < p.len() && set.contains(#[trigger] p[k])
}

/// A password for the options: of the asked length, drawn from the allowed
/// characters, with at least one character of each selected class.
pub open spec fn is_password(o: GenPassOpts, p: Seq<u8>) -> bool {
    &&& p.len() == o.length
    &&& forall|k: int| 0 <= k < p.len() ==> allowed_chars(o).contains(#[trigger] p[k])
    &&& o.uppercase ==> has_one_of(p, upper_chars())
    &&& o.lowercase ==> has_one_of(p, lower_chars())
    &&& o.number ==> has_one_of(p, number_chars())
    &&& o.symbol ==> has_one_of(p, symbol_chars())
}

/// Relies on rand's `Rng::gen_range` on the thread's generator: a value below the bound.
#[verifier::external_body]
fn random_below(n: usize) -> (r: usize)
    requires
        n > 0,
    ensures
        r < n,
{
    rand::thread_rng().gen_range(0..n)
}

/// Relies on rand's `SliceRandom::shuffle`: a permutation of the items.
#[verifier::external_body]
fn shuffle(v: &mut Vec<u8>)
    ensures
        final(v)@.to_multiset() == old(v)@.to_multiset(),
{
    v.shuffle(&mut rand::thread_rng())
}

fn range_chars(first: u8, n: u8) -> (r: Vec<u8>)
    requires
        first as int + n as int <= 256,
    ensures
        r@ == Seq::new(n as nat, |i: int| (first + i) as u8),
{
    let mut r: Vec<u8> = Vec::new();
    let mut i: u8 = 0;
    while i < n
        invariant
            i <= n,
            first as int + n as int <= 256,
            r@ == Seq::new(i as nat, |k: int| (first + k) as u8),
        decreases n - i,
    {
        r.push(first + i);
        i = i + 1;
        assert(r@ =~= Seq::new(i as nat, |k: int| (first + k) as u8));
    }
    r
}

fn symbol_set() -> (r: Vec<u8>)
    ensures
        r@ == symbol_chars(),
{
    let r = vec![33u8, 64u8, 35u8, 36u8, 37u8, 94u8, 38u8, 42u8, 95u8];
    assert(r@ =~= symbol_chars());
    r
}

fn append(dst: &mut Vec<u8>, src: &Vec<u8>)
    ensures
        final(dst)@ == old(dst)@ + src@,
{
    let mut i: usize = 0;
    while i < src.len()
        invariant
            i <= src@.len(),
            dst@ == old(dst)@ + src@.subrange(0, i as int),
        decreases src@.len() - i,
    {
        dst.push(src[i]);
        i = i + 1;
        assert(dst@ =~= old(dst)@ + src@.subrange(0, i as int));
    }
    assert(src@.subrange(0, i as int) =~= src@);
}

/// The selected character classes, in the order upper case, lower case,
/// digits, symbols.
pub open spec fn selected_classes(o: GenPassOpts) -> Seq<Seq<u8>> {
    (if o.uppercase { seq![upper_chars()] } else { Seq::empty() }) + (if o.lowercase {
        seq![lower_chars()]
    } else {
        Seq::empty()
    }) + (if o.number { seq![number_chars()] } else { Seq::empty() }) + (if o.symbol {
        seq![symbol_chars()]
    } else {
        Seq::empty()
    })
}

/// Whether `d` holds one draw per password character: for the k-th selected
/// class an index into that class, then for each other character an index
/// into all allowed characters.
pub open spec fn draws_fit(o: GenPassOpts, d: Seq<usize>) -> bool {
    &&& d.len() == o.length
    &&& selected_classes(o).len() <= d.len()
    &&& forall|k: int|
        0 <= k < d.len() ==> if k < selected_classes(o).len() {
            (#[trigger] d[k]) < selected_classes(o)[k].len()
        } else {
            d[k] < allowed_chars(o).len()
        }
}

/// The password that the draws pick, before shuffling: the drawn character
/// of each selected class in order, then the drawn allowed characters.
pub open spec fn password_of(o: GenPassOpts, d: Seq<usize>) -> Seq<u8> {
    Seq::new(
        d.len(),
        |k: int|
            if k < selected_classes(o).len() {
                selected_classes(o)[k][d[k] as int]
            } else {
                allowed_chars(o)[d[k] as int]
            },
    )
}

fn class_sets(opts: &GenPassOpts) -> (r: Vec<Vec<u8>>)
    ensures
        r@.len() == selected_classes(*opts).len(),
        forall|k: int| 0 <= k < r@.len() ==> (#[trigger] r@[k])@ == selected_classes(*opts)[k],
{
    let ghost o = *opts;
    let mut r: Vec<Vec<u8>> = Vec::new();
    if opts.uppercase {
        r.push(range_chars(65, 26));
    }
    if opts.lowercase {
        r.push(range_chars(97, 26));
    }
    if opts.number {
        r.push(range_chars(49, 9));
    }
    if opts.symbol {
        r.push(symbol_set());
    }
    proof {
        let sc = selected_classes(o);
        assert(r@.len() == sc.len());
        assert forall|k: int| 0 <= k < r@.len() implies (#[trigger] r@[k])@ == sc[k] by {
            let u: int = if o.uppercase { 1 } else { 0 };
            let l: int = if o.lowercase { 1 } else { 0 };
            let n: int = if o.number { 1 } else { 0 };
            if o.uppercase && k == 0 {
                assert(sc[k] == upper_chars());
            } else if o.lowercase && k == u {
                assert(sc[k] == lower_chars());
            } else if o.number && k == u + l {
                assert(sc[k] == number_chars());
            } else {
                assert(sc[k] == symbol_chars());
            }
        }
    }
    r
}

fn charset_of(opts: &GenPassOpts) -> (r: Vec<u8>)
    ensures
        r@ == allowed_chars(*opts),
{
    let mut r: Vec<u8> = Vec::new();
    if opts.uppercase {
        append(&mut r, &range_chars(65, 26));
    }
    if opts.lowercase {
        append(&mut r, &range_chars(97, 26));
    }
    if opts.number {
        append(&mut r, &range_chars(49, 9));
    }
    if opts.symbol {
        append(&mut r, &symbol_set());
    }
    assert(r@ =~= allowed_chars(*opts));
    r
}

/// Builds the password that a list of draws picks, as `password_of` states.
pub fn password_from_draws(opts: &GenPassOpts, draws: &Vec<usize>) -> (r: Vec<u8>)
    requires
        draws_fit(*opts, draws@),
    ensures
        r@ == password_of(*opts, draws@),
{
    let classes = class_sets(opts);
    let charset = charset_of(opts);
    let mut r: Vec<u8> = Vec::new();
    let mut k: usize = 0;
    while k < draws.len()
        invariant
            k <= draws@.len(),
            draws_fit(*opts, draws@),
            classes@.len() == selected_classes(*opts).len(),
            forall|j: int| 0 <= j < classes@.len() ==> (#[trigger] classes@[j])@ == selected_classes(*opts)[j],
            charset@ == allowed_chars(*opts),
            r@ == password_of(*opts, draws@).subrange(0, k as int),
        decreases draws@.len() - k,
    {
        let d = draws[k];
        if k < classes.len() {
            assert(classes@[k as int]@ == selected_classes(*opts)[k as int]);
            r.push(classes[k][d]);
        } else {
            r.push(charset[d]);
        }
        k = k + 1;
        assert(r@ =~= password_of(*opts, draws@).subrange(0, k as int));
    }
    assert(password_of(*opts, draws@).subrange(0, k as int) =~= password_of(*opts, draws@));
    r
}

/// Draws one index per password character, as `draws_fit` asks.
fn draw(opts: &GenPassOpts) -> (r: Vec<usize>)
    requires
        class_count(*opts) <= opts.length,
        class_count(*opts) == 0 ==> opts.length == 0,
    ensures
        draws_fit(*opts, r@),
{
    let classes = class_sets(opts);
    let charset = charset_of(opts);
    proof {
        lemma_selected_classes(*opts);
    }
    let mut r: Vec<usize> = Vec::new();
    let mut k: usize = 0;
    let n = opts.length as usize;
    while k < n
        invariant
            k <= n,
            n == opts.length,
            selected_classes(*opts).len() <= n,
            selected_classes(*opts).len() == 0 ==> n == 0,
            forall|j: int| 0 <= j < selected_classes(*opts).len() ==> #[trigger] selected_classes(*opts)[j].len() > 0,
            selected_classes(*opts).len() > 0 ==> allowed_chars(*opts).len() > 0,
            classes@.len() == selected_classes(*opts).len(),
            forall|j: int| 0 <= j < classes@.len() ==> (#[trigger] classes@[j])@ == selected_classes(*opts)[j],
            charset@ == allowed_chars(*opts),
            r@.len() == k,
            forall|j: int|
                0 <= j < k ==> if j < selected_classes(*opts).len() {
                    (#[trigger] r@[j]) < selected_classes(*opts)[j].len()
                } else {
                    r@[j] < allowed_chars(*opts).len()
                },
        decreases n - k,
    {
        if k < classes.len() {
            assert(classes@[k as int]@ == selected_classes(*opts)[k as int]);
            let x = random_below(classes[k].len());
            r.push(x);
        } else {
            let x = random_below(charset.len());
            r.push(x);
        }
        k = k + 1;
    }
    r
}

proof fn lemma_selected_classes(o: GenPassOpts)
    ensures
        selected_classes(o).len() == class_count(o),
        forall|j: int| 0 <= j < selected_classes(o).len() ==> #[trigger] selected_classes(o)[j].len() > 0,
        selected_classes(o).len() > 0 ==> allowed_chars(o).len() > 0,
        forall|j: int, i: int|
            0 <= j < selected_classes(o).len() && 0 <= i < selected_classes(o)[j].len()
                ==> allowed_chars(o).contains(#[trigger] selected_classes(o)[j][i]),
{
    let sc = selected_classes(o);
    let a = allowed_chars(o);
    let u: int = if o.uppercase { 26 } else { 0 };
    let l: int = if o.lowercase { 26 } else { 0 };
    let n: int = if o.number { 9 } else { 0 };
    let cu: int = if o.uppercase { 1 } else { 0 };
    let cl: int = if o.lowercase { 1 } else { 0 };
    let cn: int = if o.number { 1 } else { 0 };
    assert forall|j: int| 0 <= j < sc.len() implies #[trigger] sc[j].len() > 0 && (
    sc[j] == upper_chars() && o.uppercase && j == 0 || sc[j] == lower_chars() && o.lowercase && j == cu
        || sc[j] == number_chars() && o.number && j == cu + cl || sc[j] == symbol_chars() && o.symbol && j
        == cu + cl + cn) by {
        if o.uppercase && j == 0 {
        } else if o.lowercase && j == cu {
        } else if o.number && j == cu + cl {
        } else {
        }
    }
    assert forall|j: int, i: int|
        0 <= j < sc.len() && 0 <= i < sc[j].len() implies a.contains(#[trigger] sc[j][i]) by {
        if sc[j] == upper_chars() && o.uppercase && j == 0 {
            assert(a[i] == sc[j][i]);
        } else if sc[j] == lower_chars() && o.lowercase && j == cu {
            assert(a[u + i] == sc[j][i]);
        } else if sc[j] == number_chars() && o.number && j == cu + cl {
            assert(a[u + l + i] == sc[j][i]);
        } else {
            assert(a[u + l + n + i] == sc[j][i]);
        }
    }
    if sc.len() > 0 {
        assert(a.contains(sc[0][0]));
    }
}

/// The characters that the draws pick form a password for the options.
pub proof fn lemma_draws_give_password(o: GenPassOpts, d: Seq<usize>)
    requires
        draws_fit(o, d),
    ensures
        is_password(o, password_of(o, d)),
{
    lemma_selected_classes(o);
    let p = password_of(o, d);
    let sc = selected_classes(o);
    assert forall|k: int| 0 <= k < p.len() implies allowed_chars(o).contains(#[trigger] p[k]) by {
        if k < sc.len() {
            assert(d[k] < sc[k].len());
            assert(p[k] == sc[k][d[k] as int]);
        } else {
            assert(d[k] < allowed_chars(o).len());
            assert(allowed_chars(o)[d[k] as int] == p[k]);
        }
    }
    let cu: int = if o.uppercase { 1 } else { 0 };
    let cl: int = if o.lowercase { 1 } else { 0 };
    let cn: int = if o.number { 1 } else { 0 };
    if o.uppercase {
        assert(sc[0] == upper_chars());
        assert(d[0] < sc[0].len());
        assert(upper_chars()[d[0] as int] == p[0]);
    }
    if o.lowercase {
        let i = cu;
        assert(sc[i] == lower_chars());
        assert(d[i] < sc[i].len());
        assert(lower_chars()[d[i] as int] == p[i]);
    }
    if o.number {
        let i = cu + cl;
        assert(sc[i] == number_chars());
        assert(d[i] < sc[i].len());
        assert(number_chars()[d[i] as int] == p[i]);
    }
    if o.symbol {
        let i = cu + cl + cn;
        assert(sc[i] == symbol_chars());
        assert(d[i] < sc[i].len());
        assert(symbol_chars()[d[i] as int] == p[i]);
    }
}

/// Reordering a password keeps it a password for the same options.
pub proof fn lemma_shuffled_password(o: GenPassOpts, p: Seq<u8>, q: Seq<u8>)
    requires
        is_password(o, p),
        q.to_multiset() == p.to_multiset(),
    ensures
        is_password(o, q),
{
    p.to_multiset_ensures();
    q.to_multiset_ensures();
    assert(q.len() == p.len()) by {
        assert(q.to_multiset().len() == p.to_multiset().len());
    }
    assert forall|k: int| 0 <= k < q.len() implies allowed_chars(o).contains(#[trigger] q[k]) by {
        assert(q.contains(q[k]));
        assert(q.to_multiset().count(q[k]) > 0);
        assert(p.to_multiset().count(q[k]) > 0);
        assert(p.contains(q[k]));
        let j = choose|j: int| 0 <= j < p.len() && p[j] == q[k];
        assert(allowed_chars(o).contains(p[j]));
    }
    assert forall|set: Seq<u8>| has_one_of(p, set) implies has_one_of(q, set) by {
        let k = choose|k: int| 0 <= k < p.len() && set.contains(#[trigger] p[k]);
        let x = p[k];
        assert(p.contains(x));
        assert(p.to_multiset().count(x) > 0);
        assert(q.to_multiset().count(x) > 0);
        assert(q.contains(x));
        let j = choose|j: int| 0 <= j < q.len() && q[j] == x;
        assert(set.contains(q[j]));
    }
}

/// Draws a password of bytes: one character of each selected class, the rest
/// from all allowed characters, in shuffled order.
pub fn generate_password(opts: &GenPassOpts) -> (r: Vec<u8>)
    requires
        class_count(*opts) <= opts.length,
        class_count(*opts) == 0 ==> opts.length == 0,
    ensures
        is_password(*opts, r@),
        exists|d: Seq<usize>|
            draws_fit(*opts, d) && r@.to_multiset() == #[trigger] password_of(*opts, d).to_multiset(),
{
    let draws = draw(opts);
    let mut password = password_from_draws(opts, &draws);
    let ghost unshuffled = password@;
    shuffle(&mut password);
    proof {
        lemma_draws_give_password(*opts, draws@);
        lemma_shuffled_password(*opts, unshuffled, password@);
    }
    password
}

/// The characters of ASCII bytes.
pub open spec fn ascii_text(b: Seq<u8>) -> Seq<char> {
    Seq::new(b.len(), |i: int| b[i] as char)
}

/// Generates a password as text.
pub fn process_genpass(opts: GenPassOpts) -> (r: Result<String, TextError>)
    requires
        class_count(opts) <= opts.length,
        class_count(opts) == 0 ==> opts.length == 0,
    ensures
        r matches Ok(s) && exists|b: Seq<u8>|
            #![trigger ascii_text(b)]
            s@ == ascii_text(b) && is_password(opts, b) && exists|d: Seq<usize>|
                draws_fit(opts, d) && b.to_multiset() == #[trigger] password_of(opts, d).to_multiset(),
{
    let bytes = generate_password(&opts);
    let mut s = String::new();
    let mut i: usize = 0;
    while i < bytes.len()
        invariant
            i <= bytes@.len(),
            s@ == ascii_text(bytes@.subrange(0, i as int)),
        decreases bytes@.len() - i,
    {
        push_char(&mut s, bytes[i] as char);
        i = i + 1;
        assert(s@ =~= ascii_text(bytes@.subrange(0, i as int)));
    }
    assert(bytes@.subrange(0, i as int) =~= bytes@);
    Ok(s)
}

} // verus!
