//! Category membership lists: for each category id, the listing ids indexed
//! under it.  Membership is kept as a set: no id occurs twice in one list.
use vstd::prelude::*;
use crate::{AppId, CategoryId, distinct_ids};

verus! {

/// `post` is `pre` with every occurrence of `id` taken out: `id` is gone,
/// every other id keeps its place among the rest, and nothing else changed.
pub open spec fn removed_from(pre: Seq<AppId>, post: Seq<AppId>, id: AppId) -> bool {
    &&& !post.contains(id)
    &&& forall|x: AppId| x != id ==> (post.contains(x) <==> pre.contains(x))
    &&& post.len() == pre.len() - (if pre.contains(id) { 1int } else { 0int })
    &&& !pre.contains(id) ==> post == pre
}

/// The position of the first occurrence of an id.
fn find_id(v: &Vec<AppId>, id: AppId) -> (r: Option<usize>)
    ensures
        match r {
            Some(p) => p < v@.len() && v@[p as int] == id && forall|k: int| 0 <= k < p
                ==> v@[k] != id,
            None => !v@.contains(id),
        },
{
    let n = v.len();
    let mut i: usize = 0;
    while i < n
        invariant
            0 <= i <= n,
            n == v@.len(),
            forall|k: int| 0 <= k < i ==> v@[k] != id,
        decreases n - i,
    {
        if v[i] == id {
            return Some(i);
        }
        i = i + 1;
    }
    proof {
        if v@.contains(id) {
            let w = choose|w: int| 0 <= w < v@.len() && v@[w] == id;
            assert(v@[w] != id);
        }
    }
    None
}

/// Whether an id occurs in a list.
pub fn contains_id(v: &Vec<AppId>, id: AppId) -> (b: bool)
    ensures
        b == v@.contains(id),
{
    match find_id(v, id) {
        Some(p) => {
            proof {
                assert(v@[p as int] == id);
                assert(v@.contains(id));
            }
            true
        }
        None => false,
    }
}

/// Takes an id out of a membership list.
pub fn remove_id(v: &mut Vec<AppId>, id: AppId)
    requires
        distinct_ids(old(v)@),
    ensures
        removed_from(old(v)@, final(v)@, id),
        distinct_ids(final(v)@),
{
    let ghost pre = v@;
    match find_id(v, id) {
        Some(p) => {
            v.remove(p);
            proof {
                let post = v@;
                assert forall|k: int| 0 <= k < post.len() implies post[k] == (if k < p as int {
                    pre[k]
                } else {
                    pre[k + 1]
                }) by {}
                assert(pre.contains(id)) by {
                    assert(pre[p as int] == id);
                }
                assert forall|k: int| 0 <= k < post.len() implies post[k] != id by {
                    let k0: int = if k < p as int { k } else { k + 1 };
                    if k0 != p as int {
                        assert(pre[k0] != pre[p as int]);
                    }
                }
                if post.contains(id) {
                    let w = choose|w: int| 0 <= w < post.len() && post[w] == id;
                    assert(post[w] != id);
                }
                assert forall|x: AppId| x != id implies (post.contains(x) <==> pre.contains(
                    x,
                )) by {
                    if pre.contains(x) {
                        let w = choose|w: int| 0 <= w < pre.len() && pre[w] == x;
                        assert(w != p as int);
                        if w < p as int {
                            assert(post[w] == x);
                        } else {
                            assert(post[w - 1] == x);
                        }
                    }
                    if post.contains(x) {
                        let w = choose|w: int| 0 <= w < post.len() && post[w] == x;
                        let w0: int = if w < p as int { w } else { w + 1 };
                        assert(pre[w0] == x);
                    }
                }
                assert forall|x: int, y: int| 0 <= x < y < post.len() implies post[x] != post[y] by {
                    let x0: int = if x < p as int { x } else { x + 1 };
                    let y0: int = if y < p as int { y } else { y + 1 };
                    assert(post[x] == pre[x0] && post[y] == pre[y0]);
                }
            }
        }
        None => {}
    }
}

/// Adds a fresh id to a membership list.
pub fn add_id(v: &mut Vec<AppId>, id: AppId)
    requires
        !old(v)@.contains(id),
        distinct_ids(old(v)@),
    ensures
        final(v)@ == old(v)@.push(id),
        distinct_ids(final(v)@),
{
    let ghost pre = v@;
    v.push(id);
    proof {
        assert forall|x: int, y: int| 0 <= x < y < v@.len() implies v@[x] != v@[y] by {
            if y < pre.len() {
                assert(v@[x] == pre[x] && v@[y] == pre[y]);
            } else {
                assert(v@[x] == pre[x]);
                assert(v@[y] == id);
                assert(pre.contains(pre[x]));
            }
        }
    }
}

/// Takes a listing out of the membership lists of the given categories.
/// Lists of other categories stay untouched.
pub fn clear_membership(
    members: &mut Vec<Vec<AppId>>,
    app_id: AppId,
    categories: &Vec<CategoryId>,
)
    requires
        distinct_ids(categories@),
        forall|k: int| 0 <= k < categories@.len() ==> (#[trigger] categories@[k]) < old(
            members,
        )@.len(),
        forall|c: int| 0 <= c < old(members)@.len() ==> distinct_ids(#[trigger] old(members)@[c]@),
    ensures
        final(members)@.len() == old(members)@.len(),
        forall|c: int| 0 <= c < final(members)@.len() ==> distinct_ids(
            #[trigger] final(members)@[c]@,
        ),
        forall|c: int| #![trigger final(members)@[c]] 0 <= c < final(members)@.len()
            ==> if categories@.contains(c as CategoryId) {
            removed_from(old(members)@[c]@, final(members)@[c]@, app_id)
        } else {
            final(members)@[c] == old(members)@[c]
        },
{
    let n = categories.len();
    let mut i: usize = 0;
    while i < n
        invariant
            0 <= i <= n,
            n == categories@.len(),
            distinct_ids(categories@),
            forall|k: int| 0 <= k < categories@.len() ==> (#[trigger] categories@[k]) < old(
                members,
            )@.len(),
            members@.len() == old(members)@.len(),
            forall|c: int| 0 <= c < members@.len() ==> distinct_ids(#[trigger] members@[c]@),
            forall|c: int| #![trigger members@[c]] 0 <= c < members@.len() ==> if categories@.subrange(
                0,
                i as int,
            ).contains(c as CategoryId) {
                removed_from(old(members)@[c]@, members@[c]@, app_id)
            } else {
                members@[c] == old(members)@[c]
            },
        decreases n - i,
    {
        let ml = members.len();
        proof {
            assert(categories@[i as int] < members@.len());
            assert(categories@[i as int] < ml as u64);
        }
        let c = categories[i] as usize;
        let ghost pre_members = members@;
        proof {
            assert((c as int) as CategoryId == categories@[i as int]);
            assert(!categories@.subrange(0, i as int).contains((c as int) as CategoryId)) by {
                if categories@.subrange(0, i as int).contains((c as int) as CategoryId) {
                    let w = choose|w: int|
                        0 <= w < i as int && categories@.subrange(0, i as int)[w] == (
                        c as int) as CategoryId;
                    assert(categories@[w] == categories@[i as int]);
                }
            }
            assert(members@[c as int] == old(members)@[c as int]);
            assert(members@[c as int]@ == old(members)@[c as int]@);
        }
        let mut row = clone_row(&members[c]);
        remove_id(&mut row, app_id);
        members[c] = row;
        proof {
            let ext = categories@.subrange(0, i as int + 1);
            let pre_sub = categories@.subrange(0, i as int);
            assert(ext =~= pre_sub.push(categories@[i as int]));
            assert(removed_from(old(members)@[c as int]@, members@[c as int]@, app_id));
            assert forall|cc: int| 0 <= cc < members@.len() implies (if ext.contains(
                cc as CategoryId,
            ) {
                removed_from(old(members)@[cc]@, #[trigger] members@[cc]@, app_id)
            } else {
                members@[cc] == old(members)@[cc]
            }) by {
                if cc == c as int {
                    assert(ext[i as int] == cc as CategoryId);
                    assert(ext.contains(cc as CategoryId));
                } else {
                    assert(members@[cc] == pre_members[cc]);
                    if ext.contains(cc as CategoryId) {
                        let w = choose|w: int| 0 <= w < ext.len() && ext[w] == cc as CategoryId;
                        if w < i as int {
                            assert(pre_sub[w] == cc as CategoryId);
                            assert(pre_sub.contains(cc as CategoryId));
                        } else {
                            assert(ext[w] == categories@[i as int]);
                            assert(cc as CategoryId == (c as int) as CategoryId);
                            assert(cc <= u64::MAX as int);
                            assert(cc == c as int);
                        }
                    } else {
                        if pre_sub.contains(cc as CategoryId) {
                            let w = choose|w: int|
                                0 <= w < pre_sub.len() && pre_sub[w] == cc as CategoryId;
                            assert(ext[w] == cc as CategoryId);
                            assert(ext.contains(cc as CategoryId));
                        }
                    }
                }
            }
        }
        i = i + 1;
    }
    proof {
        assert(categories@.subrange(0, n as int) =~= categories@);
    }
}

/// Adds a listing to the membership lists of the given categories, where it
/// must not yet occur.  Lists of other categories stay untouched.
pub fn install_membership(
    members: &mut Vec<Vec<AppId>>,
    app_id: AppId,
    categories: &Vec<CategoryId>,
)
    requires
        distinct_ids(categories@),
        forall|k: int| 0 <= k < categories@.len() ==> (#[trigger] categories@[k]) < old(
            members,
        )@.len(),
        forall|c: int| 0 <= c < old(members)@.len() ==> distinct_ids(#[trigger] old(members)@[c]@),
        forall|c: int| 0 <= c < old(members)@.len() ==> !(#[trigger] old(members)@[c]@).contains(
            app_id,
        ),
    ensures
        final(members)@.len() == old(members)@.len(),
        forall|c: int| 0 <= c < final(members)@.len() ==> distinct_ids(
            #[trigger] final(members)@[c]@,
        ),
        forall|c: int| #![trigger final(members)@[c]] 0 <= c < final(members)@.len()
            ==> if categories@.contains(c as CategoryId) {
            final(members)@[c]@ == old(members)@[c]@.push(app_id)
        } else {
            final(members)@[c] == old(members)@[c]
        },
{
    let n = categories.len();
    let mut i: usize = 0;
    while i < n
        invariant
            0 <= i <= n,
            n == categories@.len(),
            distinct_ids(categories@),
            forall|k: int| 0 <= k < categories@.len() ==> (#[trigger] categories@[k]) < old(
                members,
            )@.len(),
            members@.len() == old(members)@.len(),
            forall|c: int| 0 <= c < members@.len() ==> distinct_ids(#[trigger] members@[c]@),
            forall|c: int| 0 <= c < old(members)@.len() ==> !(#[trigger] old(members)@[c]@).contains(
                app_id,
            ),
            forall|c: int| #![trigger members@[c]] 0 <= c < members@.len() ==> if categories@.subrange(
                0,
                i as int,
            ).contains(c as CategoryId) {
                members@[c]@ == old(members)@[c]@.push(app_id)
            } else {
                members@[c] == old(members)@[c]
            },
        decreases n - i,
    {
        let ml = members.len();
        proof {
            assert(categories@[i as int] < members@.len());
            assert(categories@[i as int] < ml as u64);
        }
        let c = categories[i] as usize;
        let ghost pre_members = members@;
        proof {
            assert((c as int) as CategoryId == categories@[i as int]);
            assert(!categories@.subrange(0, i as int).contains((c as int) as CategoryId)) by {
                if categories@.subrange(0, i as int).contains((c as int) as CategoryId) {
                    let w = choose|w: int|
                        0 <= w < i as int && categories@.subrange(0, i as int)[w] == (
                        c as int) as CategoryId;
                    assert(categories@[w] == categories@[i as int]);
                }
            }
            assert(members@[c as int] == old(members)@[c as int]);
            assert(!old(members)@[c as int]@.contains(app_id));
        }
        let mut row = clone_row(&members[c]);
        add_id(&mut row, app_id);
        members[c] = row;
        proof {
            assert forall|cc: int| 0 <= cc < members@.len() implies (if categories@.subrange(
                0,
                i as int + 1,
            ).contains(cc as CategoryId) {
                members@[cc]@ == old(members)@[cc]@.push(app_id)
            } else {
                members@[cc] == old(members)@[cc]
            }) by {
                let ext = categories@.subrange(0, i as int + 1);
                let pre_sub = categories@.subrange(0, i as int);
                assert(ext =~= pre_sub.push(categories@[i as int]));
                if cc == c as int {
                    assert(ext.contains(cc as CategoryId)) by {
                        assert(ext[i as int] == categories@[i as int]);
                    }
                } else {
                    assert(members@[cc] == pre_members[cc]);
                    if ext.contains(cc as CategoryId) {
                        let w = choose|w: int| 0 <= w < ext.len() && ext[w] == cc as CategoryId;
                        if w < i as int {
                            assert(pre_sub[w] == cc as CategoryId);
                            assert(pre_sub.contains(cc as CategoryId));
                        } else {
                            assert(categories@[i as int] == c as CategoryId);
                        }
                    } else {
                        if pre_sub.contains(cc as CategoryId) {
                            let w = choose|w: int|
                                0 <= w < pre_sub.len() && pre_sub[w] == cc as CategoryId;
                            assert(ext[w] == cc as CategoryId);
                        }
                    }
                }
            }
        }
        i = i + 1;
    }
    proof {
        assert(categories@.subrange(0, n as int) =~= categories@);
    }
}

/// Copies one membership row.
fn clone_row(v: &Vec<AppId>) -> (r: Vec<AppId>)
    ensures
        r@ == v@,
{
    let r = v.clone();
    proof {
        assert(r@ =~= v@);
    }
    r
}

} // verus!
