//! The batch builder: packs sentences greedily into batches under a size budget.

use vstd::prelude::*;
use crate::text::{views, join_spaced};

verus! {

/// The size budget of a batch, in characters.
pub const MAX_BATCH_CHARS: usize = 2000;

/// Greedy packing of `sents` after the group `cur` that is being filled: the
/// next sentence joins the group (after a space) unless the group is not
/// empty and would then exceed the budget, in which case the group is closed
/// and the sentence starts the next one.
pub open spec fn pack(cur: Seq<Seq<char>>, sents: Seq<Seq<char>>) -> Seq<Seq<Seq<char>>>
    decreases sents.len(),
{
    if sents.len() == 0 {
        if cur.len() == 0 {
            Seq::empty()
        } else {
            seq![cur]
        }
    } else if cur.len() > 0 && join_spaced(cur).len() + 1 + sents[0].len() > MAX_BATCH_CHARS {
        seq![cur] + pack(seq![sents[0]], sents.drop_first())
    } else {
        pack(cur.push(sents[0]), sents.drop_first())
    }
}

/// The sentences of each batch, in order.
pub open spec fn batch_groups(sents: Seq<Seq<char>>) -> Seq<Seq<Seq<char>>> {
    pack(Seq::empty(), sents)
}

/// Each group's text: its sentences joined by single spaces.
pub open spec fn group_texts(groups: Seq<Seq<Seq<char>>>) -> Seq<Seq<char>> {
    groups.map_values(|g: Seq<Seq<char>>| join_spaced(g))
}

/// The text of each batch, in order.
pub open spec fn batches_of(sents: Seq<Seq<char>>) -> Seq<Seq<char>> {
    group_texts(batch_groups(sents))
}

/// The groups concatenated in order.
pub open spec fn flatten(groups: Seq<Seq<Seq<char>>>) -> Seq<Seq<char>>
    decreases groups.len(),
{
    if groups.len() == 0 {
        Seq::empty()
    } else {
        groups[0] + flatten(groups.drop_first())
    }
}

/// Adding one part to a non-empty join adds a space and the part.
proof fn lemma_join_push(parts: Seq<Seq<char>>, p: Seq<char>)
    requires
        parts.len() > 0,
    ensures
        join_spaced(parts.push(p)) == join_spaced(parts) + seq![' '] + p,
{
    assert(parts.push(p).drop_last() =~= parts);
}

/// A group that may stand as a batch: not empty, and within the budget unless
/// it holds a single sentence.
pub open spec fn fits(g: Seq<Seq<char>>) -> bool {
    g.len() > 0 && (g.len() == 1 || join_spaced(g).len() <= MAX_BATCH_CHARS)
}

proof fn lemma_pack_flatten(cur: Seq<Seq<char>>, sents: Seq<Seq<char>>)
    ensures
        flatten(pack(cur, sents)) == cur + sents,
    decreases sents.len(),
{
    if sents.len() == 0 {
        if cur.len() > 0 {
            assert(seq![cur].drop_first() =~= Seq::<Seq<Seq<char>>>::empty());
            assert(flatten(seq![cur]) == cur + flatten(Seq::<Seq<Seq<char>>>::empty()));
            assert(cur + Seq::<Seq<char>>::empty() =~= cur);
        } else {
            assert(cur =~= Seq::<Seq<char>>::empty());
        }
        assert(cur + sents =~= cur);
    } else if cur.len() > 0 && join_spaced(cur).len() + 1 + sents[0].len() > MAX_BATCH_CHARS {
        let tail = pack(seq![sents[0]], sents.drop_first());
        lemma_pack_flatten(seq![sents[0]], sents.drop_first());
        assert((seq![cur] + tail).drop_first() =~= tail);
        assert((seq![cur] + tail)[0] == cur);
        assert(flatten(seq![cur] + tail) == cur + flatten(tail));
        assert(cur + (seq![sents[0]] + sents.drop_first()) =~= cur + sents);
    } else {
        lemma_pack_flatten(cur.push(sents[0]), sents.drop_first());
        assert(cur.push(sents[0]) + sents.drop_first() =~= cur + sents);
    }
}

proof fn lemma_pack_fits(cur: Seq<Seq<char>>, sents: Seq<Seq<char>>)
    requires
        cur.len() <= 1 || join_spaced(cur).len() <= MAX_BATCH_CHARS,
    ensures
        forall|k: int| 0 <= k < pack(cur, sents).len() ==> fits(#[trigger] pack(cur, sents)[k]),
    decreases sents.len(),
{
    if sents.len() == 0 {
        if cur.len() > 0 {
            assert(fits(cur));
            assert(pack(cur, sents) =~= seq![cur]);
        }
    } else if cur.len() > 0 && join_spaced(cur).len() + 1 + sents[0].len() > MAX_BATCH_CHARS {
        let tail = pack(seq![sents[0]], sents.drop_first());
        assert(pack(cur, sents) == seq![cur] + tail);
        assert(fits(cur));
        lemma_pack_fits(seq![sents[0]], sents.drop_first());
        assert forall|k: int| 0 <= k < pack(cur, sents).len() implies fits(
            #[trigger] pack(cur, sents)[k],
        ) by {
            if k > 0 {
                assert(pack(cur, sents)[k] == tail[k - 1]);
            } else {
                assert(pack(cur, sents)[k] == cur);
            }
        }
    } else {
        if cur.len() > 0 {
            lemma_join_push(cur, sents[0]);
        }
        assert(pack(cur, sents) == pack(cur.push(sents[0]), sents.drop_first()));
        lemma_pack_fits(cur.push(sents[0]), sents.drop_first());
    }
}

proof fn lemma_join_concat(a: Seq<Seq<char>>, b: Seq<Seq<char>>)
    requires
        a.len() > 0,
        b.len() > 0,
    ensures
        join_spaced(a + b) == join_spaced(a) + seq![' '] + join_spaced(b),
    decreases b.len(),
{
    if b.len() == 1 {
        assert(a + b =~= a.push(b[0]));
        lemma_join_push(a, b[0]);
    } else {
        let b1 = b.drop_last();
        lemma_join_concat(a, b1);
        assert(a + b =~= (a + b1).push(b.last()));
        lemma_join_push(a + b1, b.last());
        assert(b1.push(b.last()) =~= b);
        lemma_join_push(b1, b.last());
    }
}

proof fn lemma_join_flatten(gs: Seq<Seq<Seq<char>>>)
    requires
        forall|k: int| 0 <= k < gs.len() ==> (#[trigger] gs[k]).len() > 0,
    ensures
        join_spaced(flatten(gs)) == join_spaced(group_texts(gs)),
    decreases gs.len(),
{
    if gs.len() == 0 {
    } else {
        let rest = gs.drop_first();
        lemma_join_flatten(rest);
        let texts = group_texts(gs);
        assert(texts =~= seq![join_spaced(gs[0])] + group_texts(rest));
        if gs.len() == 1 {
            assert(flatten(rest) =~= Seq::<Seq<char>>::empty());
            assert(flatten(gs) =~= gs[0]);
            assert(texts =~= seq![join_spaced(gs[0])]);
        } else {
            assert(rest[0] == gs[1]);
            assert(flatten(rest).len() > 0);
            lemma_join_concat(gs[0], flatten(rest));
            lemma_join_concat(seq![join_spaced(gs[0])], group_texts(rest));
        }
    }
}

/// Batching keeps every sentence, once and in order: the batches' sentence
/// groups concatenate to the input, and the batch texts joined by spaces
/// equal the sentences joined by spaces. Each batch holds at least one
/// sentence and stays within the budget unless it is a single sentence.
pub proof fn lemma_batches_lossless(sents: Seq<Seq<char>>)
    ensures
        flatten(batch_groups(sents)) == sents,
        batches_of(sents).len() == batch_groups(sents).len(),
        forall|k: int| 0 <= k < batch_groups(sents).len() ==> fits(#[trigger] batch_groups(sents)[k]),
        forall|k: int| 0 <= k < batches_of(sents).len()
            ==> #[trigger] batches_of(sents)[k] == join_spaced(batch_groups(sents)[k]),
        join_spaced(batches_of(sents)) == join_spaced(sents),
{
    lemma_pack_flatten(Seq::empty(), sents);
    assert(Seq::<Seq<char>>::empty() + sents =~= sents);
    lemma_pack_fits(Seq::empty(), sents);
    lemma_join_flatten(batch_groups(sents));
}

/// Packs sentences into batches: greedy, in order, no sentence split, a batch
/// over the budget only where one sentence alone exceeds it.
pub fn build_batches(sentences: &Vec<String>) -> (r: Vec<String>)
    ensures
        views(r@) == batches_of(views(sentences@)),
{
    let ghost all = views(sentences@);
    let mut out: Vec<String> = Vec::new();
    let mut cur = String::new();
    let mut cur_len: usize = 0;
    let mut started = false;
    let ghost mut group: Seq<Seq<char>> = Seq::empty();
    let mut i: usize = 0;
    assert(all.skip(0) =~= all);
    while i < sentences.len()
        invariant
            i <= sentences.len(),
            all == views(sentences@),
            cur@ == join_spaced(group),
            cur_len == cur@.len(),
            started == (group.len() > 0),
            views(out@) + group_texts(pack(group, all.skip(i as int))) == batches_of(all),
        decreases sentences.len() - i,
    {
        let ghost rest = all.skip(i as int);
        let ghost before = views(out@);
        let ghost old_group = group;
        assert(rest[0] == sentences@[i as int]@);
        assert(rest.drop_first() =~= all.skip(i + 1));
        let s = &sentences[i];
        let s_len = s.unicode_len();
        if started && (cur_len >= MAX_BATCH_CHARS || s_len >= MAX_BATCH_CHARS - cur_len) {
            out.push(cur);
            cur = String::from_str(s.as_str());
            cur_len = s_len;
            proof {
                group = seq![rest[0]];
                assert(views(out@) =~= before.push(join_spaced(old_group)));
                let tail = pack(group, all.skip(i + 1));
                assert(group_texts(seq![old_group] + tail) =~= seq![join_spaced(old_group)]
                    + group_texts(tail));
            }
        } else {
            if started {
                proof {
                    reveal_strlit(" ");
                    lemma_join_push(group, rest[0]);
                }
                cur.append(" ");
                cur.append(s.as_str());
                cur_len = cur_len + 1 + s_len;
            } else {
                cur = String::from_str(s.as_str());
                cur_len = s_len;
                started = true;
                assert(group.push(rest[0]) =~= seq![rest[0]]);
            }
            proof {
                group = group.push(rest[0]);
            }
        }
        i = i + 1;
    }
    assert(all.skip(i as int) =~= Seq::<Seq<char>>::empty());
    let ghost before = views(out@);
    if started {
        out.push(cur);
        assert(views(out@) =~= before + group_texts(seq![group]));
    } else {
        assert(views(out@) =~= before + group_texts(Seq::<Seq<Seq<char>>>::empty()));
    }
    out
}

} // verus!
