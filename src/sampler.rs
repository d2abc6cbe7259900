//! Drawing a challenge: which collections take part, which is the topic, which
//! images fill the grid, and the answer they make.
use rand::rngs::ThreadRng;
use vstd::prelude::*;
use vstd::string::*;

use crate::collection::{
    collections_disjoint, copy_bytes, is_consistent_listing, lemma_scan_disjoint, scan_spec, views,
    Collection, CollectionView, RootEntry,
};
use crate::error::Error;
use crate::ids::{is_v4, new_uuid_text, uuid_value_of};

verus! {

#[verifier::external_type_specification]
#[verifier::external_body]
pub struct ExThreadRng(rand::rngs::ThreadRng);

/// Relies on `rand::thread_rng`: a handle on the calling thread's generator.
pub assume_specification[ rand::thread_rng ]() -> rand::rngs::ThreadRng;

/// Relies on `rand::Rng::gen_range` over an inclusive range: a value between
/// the two bounds; it panics on an empty range.
#[verifier::external_body]
fn random_between(rng: &mut ThreadRng, low: usize, high: usize) -> (r: usize)
    requires
        low <= high,
    ensures
        low <= r <= high,
{
    rand::Rng::gen_range(rng, low..=high)
}

/// Relies on `rand::seq::index::sample`: `amount` distinct indices below
/// `length`; it panics where `amount > length`.
#[verifier::external_body]
fn sample_indices(rng: &mut ThreadRng, length: usize, amount: usize) -> (r: Vec<usize>)
    requires
        amount <= length,
    ensures
        r.len() == amount,
        r@.no_duplicates(),
        forall|i: int| 0 <= i < r.len() ==> r@[i] < length,
{
    rand::seq::index::sample(rng, length, amount).into_vec()
}

/// Relies on `rand::seq::index::sample_weighted`: `amount` distinct indices
/// below `weights.len()`, drawn without replacement with odds in proportion to
/// the weights. It fails only on a weight that is negative or not a number,
/// which no `u32` is, and panics where `amount` exceeds the length.
#[verifier::external_body]
fn sample_weighted_indices(rng: &mut ThreadRng, weights: &Vec<u32>, amount: usize) -> (r: Option<
    Vec<usize>,
>)
    requires
        amount <= weights.len(),
    ensures
        r is Some,
        r->Some_0.len() == amount,
        r->Some_0@.no_duplicates(),
        forall|i: int| 0 <= i < amount ==> r->Some_0@[i] < weights.len(),
{
    match rand::seq::index::sample_weighted(rng, weights.len(), |i| weights[i], amount) {
        Ok(v) => Some(v.into_vec()),
        Err(_) => None,
    }
}

/// The images a challenge draws from: those of each chosen collection in turn,
/// each tagged with the position of its collection among the chosen ones.
/// Position 0 is the topic.
pub open spec fn pool_spec(cols: Seq<CollectionView>, chosen: Seq<usize>) -> Seq<(int, Seq<u8>)>
    decreases chosen.len(),
{
    if chosen.len() == 0 {
        seq![]
    } else {
        let j = chosen.len() - 1;
        pool_spec(cols, chosen.drop_last()) + cols[chosen[j] as int].images.map_values(
            |p: Seq<u8>| (j, p),
        )
    }
}

/// The answer to a draw: `'1'` for each cell drawn from the topic, `'0'` for
/// the others, in draw order.
pub open spec fn answer_spec(pool: Seq<(int, Seq<u8>)>, drawn: Seq<usize>) -> Seq<char> {
    drawn.map_values(
        |i: usize|
            if pool[i as int].0 == 0 {
                '1'
            } else {
                '0'
            },
    )
}

/// The images of a draw's cells, in draw order.
pub open spec fn cells_spec(pool: Seq<(int, Seq<u8>)>, drawn: Seq<usize>) -> Seq<Seq<u8>> {
    drawn.map_values(|i: usize| pool[i as int].1)
}

/// A valid choice of collections: at least two and at most five distinct ones.
pub open spec fn valid_choice(cols: Seq<CollectionView>, chosen: Seq<usize>) -> bool {
    &&& 2 <= chosen.len() <= 5
    &&& chosen.no_duplicates()
    &&& forall|i: int| 0 <= i < chosen.len() ==> chosen[i] < cols.len()
}

/// A valid draw of `cells` distinct entries of a pool.
pub open spec fn valid_cells(pool: Seq<(int, Seq<u8>)>, drawn: Seq<usize>, cells: int) -> bool {
    &&& drawn.len() == cells
    &&& drawn.no_duplicates()
    &&& forall|k: int| 0 <= k < drawn.len() ==> drawn[k] < pool.len()
}

/// A drawn challenge before its image is rendered.
#[derive(Debug)]
pub struct Draw {
    pub id: String,
    /// The topic collection's name.
    pub topic: String,
    /// `'1'` or `'0'` for each cell, row by row.
    pub answer: String,
    /// The source image of each cell, row by row.
    pub cells: Vec<Vec<u8>>,
}

/// `d` is the draw made of the collections `chosen` and the pool entries
/// `drawn`.
pub open spec fn is_draw_of(
    d: Draw,
    cols: Seq<CollectionView>,
    chosen: Seq<usize>,
    drawn: Seq<usize>,
) -> bool {
    let pool = pool_spec(cols, chosen);
    &&& d.topic@ == cols[chosen[0] as int].name
    &&& d.answer@ == answer_spec(pool, drawn)
    &&& d.cells.deep_view() == cells_spec(pool, drawn)
}

/// `d` is a challenge drawn from `cols` for a grid of `grid_length` cells a
/// side: by a valid choice of collections and a valid draw from their pool.
pub open spec fn drawn_from(d: Draw, cols: Seq<CollectionView>, grid_length: int) -> bool {
    exists|chosen: Seq<usize>, drawn: Seq<usize>|
        {
            &&& valid_choice(cols, chosen)
            &&& chosen.len() <= cols.len()
            &&& valid_cells(pool_spec(cols, chosen), drawn, grid_length * grid_length)
            &&& #[trigger] is_draw_of(d, cols, chosen, drawn)
        }
}

/// Some valid choice of collections holds fewer images than a grid has cells.
pub open spec fn some_choice_too_small(cols: Seq<CollectionView>, grid_length: int) -> bool {
    exists|chosen: Seq<usize>|
        valid_choice(cols, chosen) && #[trigger] pool_spec(cols, chosen).len() < grid_length
            * grid_length
}

/// An entry of a pool built in memory: the position of its collection among
/// the chosen ones, and the index of the image in that collection.
spec fn entry_is(cols: Seq<Collection>, chosen: Seq<usize>, e: (usize, usize), p: (int, Seq<u8>)) -> bool {
    &&& e.0 < chosen.len()
    &&& chosen[e.0 as int] < cols.len()
    &&& e.1 < cols[chosen[e.0 as int] as int].images.len()
    &&& p == (e.0 as int, cols[chosen[e.0 as int] as int].images@[e.1 as int]@)
}

proof fn lemma_pool_step(cols: Seq<CollectionView>, chosen: Seq<usize>, j: int)
    requires
        0 <= j < chosen.len(),
    ensures
        pool_spec(cols, chosen.take(j + 1)) == pool_spec(cols, chosen.take(j)) + cols[chosen[j]
            as int].images.map_values(|p: Seq<u8>| (j, p)),
{
    assert(chosen.take(j + 1).drop_last() =~= chosen.take(j));
    assert(chosen.take(j + 1)[j] == chosen[j]);
}

/// The pool of the chosen collections, as (position among the chosen, index in
/// the collection).
fn build_pool(cols: &Vec<Collection>, chosen: &Vec<usize>) -> (r: Vec<(usize, usize)>)
    requires
        forall|i: int| 0 <= i < chosen.len() ==> chosen@[i] < cols.len(),
    ensures
        r.len() == pool_spec(views(cols@), chosen@).len(),
        forall|q: int|
            0 <= q < r.len() ==> entry_is(cols@, chosen@, #[trigger] r@[q], pool_spec(views(cols@), chosen@)[q]),
{
    let ghost vs = views(cols@);
    let mut r: Vec<(usize, usize)> = Vec::new();
    let mut j: usize = 0;
    assert(chosen@.take(0) =~= Seq::<usize>::empty());
    while j < chosen.len()
        invariant
            vs == views(cols@),
            j <= chosen.len(),
            forall|i: int| 0 <= i < chosen.len() ==> chosen@[i] < cols.len(),
            r.len() == pool_spec(vs, chosen@.take(j as int)).len(),
            forall|q: int|
                0 <= q < r.len() ==> entry_is(cols@, chosen@, #[trigger] r@[q], pool_spec(vs, chosen@.take(j as int))[q]),
        decreases chosen.len() - j,
    {
        let c = chosen[j];
        let images = &cols[c].images;
        let ghost base = pool_spec(vs, chosen@.take(j as int));
        let ghost tail = vs[c as int].images.map_values(|p: Seq<u8>| (j as int, p));
        proof {
            lemma_pool_step(vs, chosen@, j as int);
            assert(vs[c as int] == cols@[c as int]@);
        }
        let mut m: usize = 0;
        while m < images.len()
            invariant
                vs == views(cols@),
                j < chosen.len(),
                c == chosen@[j as int],
                c < cols.len(),
                images == cols@[c as int].images,
                vs[c as int] == cols@[c as int]@,
                tail == vs[c as int].images.map_values(|p: Seq<u8>| (j as int, p)),
                m <= images.len(),
                r.len() == base.len() + m,
                forall|q: int|
                    0 <= q < r.len() ==> entry_is(cols@, chosen@, #[trigger] r@[q], (base + tail)[q]),
            decreases images.len() - m,
        {
            r.push((j, m));
            proof {
                let q = r.len() - 1;
                assert(images.deep_view()[m as int] == images@[m as int]@);
                assert((base + tail)[q] == tail[m as int]);
                assert(entry_is(cols@, chosen@, r@[q], (base + tail)[q]));
            }
            m = m + 1;
        }
        j = j + 1;
    }
    assert(chosen@.take(chosen.len() as int) =~= chosen@);
    r
}

/// The weight of each pool entry: `n_chosen` for the topic's images, 1 for
/// the others.
fn pool_weights(pool: &Vec<(usize, usize)>, n_chosen: u32) -> (r: Vec<u32>)
    ensures
        r.len() == pool.len(),
        forall|q: int|
            0 <= q < pool.len() ==> r@[q] == if pool@[q].0 == 0 {
                n_chosen
            } else {
                1
            },
{
    let mut r: Vec<u32> = Vec::new();
    let mut q: usize = 0;
    while q < pool.len()
        invariant
            q <= pool.len(),
            r.len() == q,
            forall|i: int|
                0 <= i < q ==> r@[i] == if pool@[i].0 == 0 {
                    n_chosen
                } else {
                    1
                },
        decreases pool.len() - q,
    {
        if pool[q].0 == 0 {
            r.push(n_chosen);
        } else {
            r.push(1);
        }
        q = q + 1;
    }
    r
}

/// Builds the draw made of the collections `chosen` (the first is the topic)
/// and the entries `drawn` of their pool, under the id `id`.
pub fn draw_from(cols: &Vec<Collection>, chosen: &Vec<usize>, drawn: &Vec<usize>, id: String) -> (r:
    Draw)
    requires
        chosen.len() >= 1,
        forall|i: int| 0 <= i < chosen.len() ==> chosen@[i] < cols.len(),
        forall|k: int| 0 <= k < drawn.len() ==> drawn@[k] < pool_spec(views(cols@), chosen@).len(),
    ensures
        r.id@ == id@,
        is_draw_of(r, views(cols@), chosen@, drawn@),
{
    let ghost vs = views(cols@);
    let ghost pool_v = pool_spec(vs, chosen@);
    let pool = build_pool(cols, chosen);
    let mut answer = String::new();
    let mut cells: Vec<Vec<u8>> = Vec::new();
    let mut k: usize = 0;
    assert(answer@ =~= answer_spec(pool_v, drawn@.take(0)));
    assert(cells.deep_view() =~= cells_spec(pool_v, drawn@.take(0)));
    while k < drawn.len()
        invariant
            vs == views(cols@),
            pool_v == pool_spec(vs, chosen@),
            pool.len() == pool_v.len(),
            forall|q: int| 0 <= q < pool.len() ==> entry_is(cols@, chosen@, #[trigger] pool@[q], pool_v[q]),
            forall|k: int| 0 <= k < drawn.len() ==> drawn@[k] < pool_v.len(),
            k <= drawn.len(),
            answer@ == answer_spec(pool_v, drawn@.take(k as int)),
            cells.deep_view() == cells_spec(pool_v, drawn@.take(k as int)),
        decreases drawn.len() - k,
    {
        let e = pool[drawn[k]];
        proof {
            assert(entry_is(cols@, chosen@, pool@[drawn@[k as int] as int], pool_v[drawn@[k as int] as int]));
        }
        let path = copy_bytes(&cols[chosen[e.0]].images[e.1]);
        let ghost before_cells = cells.deep_view();
        let ghost before_answer = answer@;
        cells.push(path);
        if e.0 == 0 {
            answer.append("1");
        } else {
            answer.append("0");
        }
        proof {
            assert(drawn@.take(k + 1) =~= drawn@.take(k as int).push(drawn@[k as int]));
            assert(cells.deep_view() =~= before_cells.push(path@)) by {
                assert(forall|j: int| 0 <= j < cells.len() ==> #[trigger] cells@[j].deep_view() == cells@[j]@);
            }
            assert(cells.deep_view() =~= cells_spec(pool_v, drawn@.take(k + 1)));
            reveal_strlit("1");
            reveal_strlit("0");
            assert(pool_v[drawn@[k as int] as int].0 == e.0 as int);
            let mark = if e.0 == 0 { '1' } else { '0' };
            assert(answer@ =~= before_answer.push(mark));
            assert(answer@ =~= answer_spec(pool_v, drawn@.take(k + 1)));
        }
        k = k + 1;
    }
    assert(drawn@.take(drawn.len() as int) =~= drawn@);
    let topic = cols[chosen[0]].name.clone();
    proof {
        assert(vs[chosen@[0] as int] == cols@[chosen@[0] as int]@);
    }
    Draw { id, topic, answer, cells }
}

/// Draws a challenge from `cols` for a grid of `grid_length` cells a side.
///
/// Between two and five collections (no more than there are) take part, the
/// first of them is the topic, and the cells are drawn without replacement
/// from their images, the topic's weighted by the number of collections taking
/// part. Fails with `InsufficientCollections` where there are fewer than two
/// collections, or where those that take part hold fewer images than the grid
/// has cells.
pub fn draw_challenge(cols: &Vec<Collection>, grid_length: u32) -> (r: Result<Draw, Error>)
    ensures
        cols.len() < 2 ==> r matches Err(Error::InsufficientCollections),
        r is Err ==> (r matches Err(Error::InsufficientCollections)),
        r is Err ==> cols.len() < 2 || some_choice_too_small(views(cols@), grid_length as int),
        r is Ok ==> drawn_from(r->Ok_0, views(cols@), grid_length as int),
        r is Ok ==> uuid_value_of(r->Ok_0.id@) is Some && is_v4(uuid_value_of(r->Ok_0.id@)->Some_0),
{
    let ghost vs = views(cols@);
    if cols.len() < 2 {
        return Err(Error::InsufficientCollections);
    }
    let mut rng = rand::thread_rng();
    let most: usize = if cols.len() < 5 {
        cols.len()
    } else {
        5
    };
    let n_chosen = random_between(&mut rng, 2, most);
    let chosen = sample_indices(&mut rng, cols.len(), n_chosen);
    let pool = build_pool(cols, &chosen);
    let weights = pool_weights(&pool, n_chosen as u32);
    assert((grid_length as u64) * (grid_length as u64) <= u64::MAX) by (nonlinear_arith)
        requires
            grid_length <= u32::MAX,
    ;
    let cells: u64 = (grid_length as u64) * (grid_length as u64);
    if (pool.len() as u64) < cells {
        proof {
            assert(valid_choice(vs, chosen@));
            assert(pool_spec(vs, chosen@).len() < grid_length * grid_length);
        }
        return Err(Error::InsufficientCollections);
    }
    let drawn = match sample_weighted_indices(&mut rng, &weights, cells as usize) {
        Some(drawn) => drawn,
        None => {
            return Err(Error::InsufficientCollections);
        },
    };
    let id = new_uuid_text();
    let d = draw_from(cols, &chosen, &drawn, id);
    proof {
        assert(valid_choice(vs, chosen@));
        assert(valid_cells(pool_spec(vs, chosen@), drawn@, grid_length * grid_length));
        assert(is_draw_of(d, vs, chosen@, drawn@));
    }
    Ok(d)
}

/// The number of `'1'`s in `s`.
pub open spec fn ones(s: Seq<char>) -> nat
    decreases s.len(),
{
    if s.len() == 0 {
        0
    } else {
        ones(s.drop_last()) + if s.last() == '1' {
            1nat
        } else {
            0nat
        }
    }
}

/// The number of drawn entries that come from the topic collection.
pub open spec fn topic_cells(pool: Seq<(int, Seq<u8>)>, drawn: Seq<usize>) -> nat
    decreases drawn.len(),
{
    if drawn.len() == 0 {
        0
    } else {
        topic_cells(pool, drawn.drop_last()) + if pool[drawn.last() as int].0 == 0 {
            1nat
        } else {
            0nat
        }
    }
}

/// No image belongs to two of the chosen collections.
pub open spec fn images_disjoint(cols: Seq<CollectionView>, chosen: Seq<usize>) -> bool {
    forall|a: int, b: int, p: Seq<u8>|
        0 <= a < chosen.len() && 0 <= b < chosen.len() && a != b && #[trigger] cols[chosen[a] as int].images.contains(p)
            ==> !#[trigger] cols[chosen[b] as int].images.contains(p)
}

proof fn lemma_pool_entry(cols: Seq<CollectionView>, chosen: Seq<usize>, q: int)
    requires
        0 <= q < pool_spec(cols, chosen).len(),
    ensures
        0 <= pool_spec(cols, chosen)[q].0 < chosen.len(),
        cols[chosen[pool_spec(cols, chosen)[q].0] as int].images.contains(pool_spec(cols, chosen)[q].1),
    decreases chosen.len(),
{
    let j = chosen.len() - 1;
    let base = pool_spec(cols, chosen.drop_last());
    let tail = cols[chosen[j] as int].images.map_values(|p: Seq<u8>| (j, p));
    assert(pool_spec(cols, chosen) == base + tail);
    if q < base.len() {
        lemma_pool_entry(cols, chosen.drop_last(), q);
        assert(chosen.drop_last()[base[q].0] == chosen[base[q].0]);
    } else {
        let m = q - base.len();
        assert(tail[m] == (j, cols[chosen[j] as int].images[m]));
    }
}

proof fn lemma_ones_count(pool: Seq<(int, Seq<u8>)>, drawn: Seq<usize>)
    requires
        forall|k: int| 0 <= k < drawn.len() ==> drawn[k] < pool.len(),
    ensures
        ones(answer_spec(pool, drawn)) == topic_cells(pool, drawn),
    decreases drawn.len(),
{
    if drawn.len() > 0 {
        lemma_ones_count(pool, drawn.drop_last());
        assert(answer_spec(pool, drawn).drop_last() =~= answer_spec(pool, drawn.drop_last()));
    }
}

/// What every drawn challenge satisfies: one answer character per cell, each
/// `'0'` or `'1'`; a topic that names a registered collection; a `'1'` exactly
/// where the cell was drawn from the topic collection, so that the `'1'`s
/// count the topic's cells; and, where no image belongs to two of the
/// collections taking part, a `'1'` exactly where the cell's image is one of
/// the topic's.
pub proof fn lemma_draw_properties(
    d: Draw,
    cols: Seq<CollectionView>,
    chosen: Seq<usize>,
    drawn: Seq<usize>,
    grid_length: int,
)
    requires
        valid_choice(cols, chosen),
        valid_cells(pool_spec(cols, chosen), drawn, grid_length * grid_length),
        is_draw_of(d, cols, chosen, drawn),
    ensures
        d.answer@.len() == grid_length * grid_length,
        d.cells@.len() == grid_length * grid_length,
        forall|k: int| 0 <= k < d.answer@.len() ==> #[trigger] d.answer@[k] == '0' || d.answer@[k] == '1',
        exists|i: int| 0 <= i < cols.len() && #[trigger] cols[i].name == d.topic@,
        forall|k: int|
            0 <= k < d.answer@.len() ==> (#[trigger] d.answer@[k] == '1' <==> pool_spec(cols, chosen)[drawn[k] as int].0 == 0),
        ones(d.answer@) == topic_cells(pool_spec(cols, chosen), drawn),
        images_disjoint(cols, chosen) ==> forall|k: int|
            0 <= k < d.answer@.len() ==> (#[trigger] d.answer@[k] == '1' <==> cols[chosen[0] as int].images.contains(
                d.cells.deep_view()[k],
            )),
{
    let pool = pool_spec(cols, chosen);
    let topic = cols[chosen[0] as int];
    assert(d.cells.deep_view().len() == d.cells@.len());
    assert(0 <= chosen[0] < cols.len() && cols[chosen[0] as int].name == d.topic@);
    lemma_ones_count(pool, drawn);
    if images_disjoint(cols, chosen) {
        assert forall|k: int| 0 <= k < d.answer@.len() implies (#[trigger] d.answer@[k] == '1'
            <==> topic.images.contains(d.cells.deep_view()[k])) by {
            let q = drawn[k] as int;
            lemma_pool_entry(cols, chosen, q);
            let j = pool[q].0;
            assert(d.cells.deep_view()[k] == pool[q].1);
            if j != 0 {
                assert(cols[chosen[j] as int].images.contains(pool[q].1));
                assert(!cols[chosen[0] as int].images.contains(pool[q].1));
            }
        }
    }
}

/// The number of `cells` that are among `images`.
pub open spec fn count_in(cells: Seq<Seq<u8>>, images: Seq<Seq<u8>>) -> nat
    decreases cells.len(),
{
    if cells.len() == 0 {
        0
    } else {
        count_in(cells.drop_last(), images) + if images.contains(cells.last()) {
            1nat
        } else {
            0nat
        }
    }
}

proof fn lemma_ones_count_in(s: Seq<char>, cells: Seq<Seq<u8>>, images: Seq<Seq<u8>>)
    requires
        s.len() == cells.len(),
        forall|k: int| 0 <= k < s.len() ==> (#[trigger] s[k] == '1' <==> images.contains(cells[k])),
    ensures
        ones(s) == count_in(cells, images),
    decreases s.len(),
{
    if s.len() > 0 {
        let (s0, c0) = (s.drop_last(), cells.drop_last());
        assert forall|k: int| 0 <= k < s0.len() implies (#[trigger] s0[k] == '1' <==> images.contains(c0[k])) by {
            assert(s0[k] == s[k] && c0[k] == cells[k]);
        }
        lemma_ones_count_in(s0, c0, images);
        assert(s.last() == s[s.len() - 1] && cells.last() == cells[s.len() - 1]);
    }
}

/// What every challenge drawn from `cols` satisfies: its answer has one
/// character per cell, each `'0'` or `'1'`; its topic is the name of one of
/// the collections; and, where no image belongs to two collections, the `'1'`s
/// mark exactly the cells whose image belongs to that collection, so that
/// their number is the number of such cells.
pub proof fn lemma_drawn_challenge(d: Draw, cols: Seq<CollectionView>, grid_length: int)
    requires
        drawn_from(d, cols, grid_length),
    ensures
        d.answer@.len() == grid_length * grid_length,
        forall|k: int| 0 <= k < d.answer@.len() ==> #[trigger] d.answer@[k] == '0' || d.answer@[k] == '1',
        exists|i: int| 0 <= i < cols.len() && #[trigger] cols[i].name == d.topic@,
        collections_disjoint(cols) ==> exists|i: int|
            {
                &&& 0 <= i < cols.len()
                &&& #[trigger] cols[i].name == d.topic@
                &&& forall|k: int|
                    0 <= k < d.answer@.len() ==> (#[trigger] d.answer@[k] == '1' <==> cols[i].images.contains(
                        d.cells.deep_view()[k],
                    ))
                &&& ones(d.answer@) == count_in(d.cells.deep_view(), cols[i].images)
            },
{
    let (chosen, drawn) = choose|chosen: Seq<usize>, drawn: Seq<usize>|
        {
            &&& valid_choice(cols, chosen)
            &&& chosen.len() <= cols.len()
            &&& valid_cells(pool_spec(cols, chosen), drawn, grid_length * grid_length)
            &&& #[trigger] is_draw_of(d, cols, chosen, drawn)
        };
    lemma_draw_properties(d, cols, chosen, drawn, grid_length);
    if collections_disjoint(cols) {
        let i = chosen[0] as int;
        assert(images_disjoint(cols, chosen)) by {
            assert forall|a: int, b: int, p: Seq<u8>|
                0 <= a < chosen.len() && 0 <= b < chosen.len() && a != b
                    && #[trigger] cols[chosen[a] as int].images.contains(p) implies !#[trigger] cols[chosen[b] as int].images.contains(p) by {
                assert(chosen[a] != chosen[b]);
            }
        }
        assert(d.cells.deep_view().len() == d.answer@.len());
        lemma_ones_count_in(d.answer@, d.cells.deep_view(), cols[i].images);
        assert(cols[i].name == d.topic@);
    }
}

/// For a registry scanned from a consistent listing, every drawn challenge's
/// `'1'`s mark exactly the cells whose image belongs to the collection named
/// by its topic, and their number is the number of such cells.
pub proof fn lemma_scanned_challenge_answer(entries: Seq<RootEntry>, d: Draw, grid_length: int)
    requires
        is_consistent_listing(entries),
        scan_spec(entries) is Ok,
        drawn_from(d, scan_spec(entries)->Ok_0, grid_length),
    ensures
        ({
            let cols = scan_spec(entries)->Ok_0;
            exists|i: int|
                {
                    &&& 0 <= i < cols.len()
                    &&& #[trigger] cols[i].name == d.topic@
                    &&& forall|k: int|
                        0 <= k < d.answer@.len() ==> (#[trigger] d.answer@[k] == '1'
                            <==> cols[i].images.contains(d.cells.deep_view()[k]))
                    &&& ones(d.answer@) == count_in(d.cells.deep_view(), cols[i].images)
                }
        }),
{
    lemma_scan_disjoint(entries);
    lemma_drawn_challenge(d, scan_spec(entries)->Ok_0, grid_length);
}

} // verus!
