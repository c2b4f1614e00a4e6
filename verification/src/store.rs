//! The engine's image store, seen through the association label.
//!
//! The pipeline owns no database: the only durable link between a recipe
//! and its image is a label on the image whose value is the recipe's name.
//! Everything here reads or rewrites a store solely through those label
//! values, so unlabeled images are invisible to the pipeline however they
//! were created.

use vstd::prelude::*;

use crate::paths::contains_string;
use crate::paths::str_eq;

verus! {

/// One image in the engine's store, reduced to what the pipeline reads of
/// it: the value of its recipe-association label, when it carries one.
#[derive(Debug)]
pub struct EngineImage {
    /// The association label's value — the owning recipe's name — or
    /// `None` for an image this pipeline does not manage.
    pub recipe_label: Option<String>,
}

impl DeepView for EngineImage {
    type V = Option<Seq<char>>;

    open spec fn deep_view(&self) -> Option<Seq<char>> {
        self.recipe_label.deep_view()
    }
}

/// The set of recipe names a store's labels mention.
pub open spec fn label_set(labels: Seq<Option<Seq<char>>>) -> Set<Seq<char>> {
    Set::new(|n: Seq<char>| labels.contains(Some(n)))
}

proof fn lemma_contains_push<A>(s: Seq<A>, x: A, y: A)
    ensures
        s.push(x).contains(y) <==> (s.contains(y) || x == y),
{
    if s.push(x).contains(y) {
        let k = choose|k: int| 0 <= k < s.push(x).len() && s.push(x)[k] == y;
        if k < s.len() {
            assert(s[k] == y);
        }
    }
    if s.contains(y) {
        let k = choose|k: int| 0 <= k < s.len() && s[k] == y;
        assert(s.push(x)[k] == y);
    }
    if x == y {
        assert(s.push(x)[s.len() as int] == y);
    }
}

/// Lists the recipe names with a live, labeled image: exactly the label
/// values present in the store, without duplicates; images without the
/// association label do not appear.
pub fn list_images(images: &Vec<EngineImage>) -> (r: Vec<String>)
    ensures
        forall|a: int, b: int|
            0 <= a < b < r.deep_view().len() ==> r.deep_view()[a] != r.deep_view()[b],
        forall|n: Seq<char>| r.deep_view().contains(n) <==> images.deep_view().contains(Some(n)),
{
    let ghost idv = images.deep_view();
    let mut r: Vec<String> = Vec::new();
    let mut i: usize = 0;
    proof {
        assert(idv.subrange(0, 0) =~= Seq::<Option<Seq<char>>>::empty());
    }
    while i < images.len()
        invariant
            idv == images.deep_view(),
            idv.len() == images@.len(),
            i <= images@.len(),
            forall|a: int, b: int|
                0 <= a < b < r.deep_view().len() ==> r.deep_view()[a] != r.deep_view()[b],
            forall|n: Seq<char>|
                r.deep_view().contains(n) <==> idv.subrange(0, i as int).contains(Some(n)),
        decreases images@.len() - i,
    {
        let ghost pre = idv.subrange(0, i as int);
        let ghost pre1 = idv.subrange(0, i as int + 1);
        proof {
            assert(pre1 =~= pre.push(idv[i as int]));
            assert(idv[i as int] == images@[i as int].deep_view());
        }
        let img = &images[i];
        match &img.recipe_label {
            Some(lbl) => {
                if !contains_string(&r, lbl.as_str()) {
                    let ghost rd = r.deep_view();
                    r.push(lbl.clone());
                    proof {
                        assert(r.deep_view() =~= rd.push(lbl@));
                        assert forall|n: Seq<char>|
                            r.deep_view().contains(n) <==> pre1.contains(Some(n)) by {
                            lemma_contains_push(rd, lbl@, n);
                            lemma_contains_push(pre, Some(lbl@), Some(n));
                        }
                        assert forall|a: int, b: int|
                            0 <= a < b < r.deep_view().len() implies r.deep_view()[a]
                            != r.deep_view()[b] by {
                            if b == rd.len() {
                                assert(rd[a] == r.deep_view()[a]);
                                assert(!rd.contains(lbl@));
                            }
                        }
                    }
                } else {
                    proof {
                        assert forall|n: Seq<char>|
                            r.deep_view().contains(n) <==> pre1.contains(Some(n)) by {
                            lemma_contains_push(pre, Some(lbl@), Some(n));
                        }
                    }
                }
            },
            None => {
                proof {
                    assert forall|n: Seq<char>|
                        r.deep_view().contains(n) <==> pre1.contains(Some(n)) by {
                        lemma_contains_push(pre, None, Some(n));
                    }
                }
            },
        }
        i += 1;
    }
    proof {
        assert(idv.subrange(0, i as int) =~= idv);
    }
    r
}

/// The store's labels after a label-filtered prune of `name`: every image
/// whose label is not `name`, in their original order.
pub open spec fn surviving(labels: Seq<Option<Seq<char>>>, name: Seq<char>) -> Seq<
    Option<Seq<char>>,
>
    decreases labels.len(),
{
    if labels.len() == 0 {
        Seq::<Option<Seq<char>>>::empty()
    } else {
        let rest = surviving(labels.drop_last(), name);
        if labels.last() == Some(name) {
            rest
        } else {
            rest.push(labels.last())
        }
    }
}

/// Deletes the images labeled for a recipe: a label-filtered prune that
/// counts what it removed.  Absence is success — pruning a name no image
/// carries removes nothing and reports zero.
pub fn delete_image(images: &Vec<EngineImage>, name: &str) -> (r: (Vec<EngineImage>, usize))
    ensures
        r.0.deep_view() == surviving(images.deep_view(), name@),
        r.0@.len() + r.1 == images@.len(),
{
    let ghost idv = images.deep_view();
    let mut kept: Vec<EngineImage> = Vec::new();
    let mut removed: usize = 0;
    let mut i: usize = 0;
    proof {
        assert(idv.subrange(0, 0) =~= Seq::<Option<Seq<char>>>::empty());
        assert(kept.deep_view() =~= surviving(idv.subrange(0, 0), name@));
    }
    while i < images.len()
        invariant
            idv == images.deep_view(),
            idv.len() == images@.len(),
            i <= images@.len(),
            kept.deep_view() == surviving(idv.subrange(0, i as int), name@),
            kept@.len() + removed == i,
        decreases images@.len() - i,
    {
        let ghost pre = idv.subrange(0, i as int);
        let ghost pre1 = idv.subrange(0, i as int + 1);
        proof {
            assert(pre1 =~= pre.push(idv[i as int]));
            assert(pre1.drop_last() =~= pre);
            assert(idv[i as int] == images@[i as int].deep_view());
        }
        let img = &images[i];
        let is_match = match &img.recipe_label {
            Some(lbl) => str_eq(lbl.as_str(), name),
            None => false,
        };
        if is_match {
            removed += 1;
        } else {
            let ghost kd = kept.deep_view();
            let copy = EngineImage {
                recipe_label: match &img.recipe_label {
                    Some(lbl) => Some(lbl.clone()),
                    None => None,
                },
            };
            kept.push(copy);
            proof {
                assert(kept.deep_view() =~= kd.push(idv[i as int]));
            }
        }
        i += 1;
    }
    proof {
        assert(idv.subrange(0, i as int) =~= idv);
    }
    (kept, removed)
}

/// An image without the association label is invisible: adding one to the
/// store leaves the set of listed recipe names unchanged.
pub proof fn lemma_unlabeled_invisible(labels: Seq<Option<Seq<char>>>)
    ensures
        label_set(labels.push(None)) =~= label_set(labels),
{
    assert forall|n: Seq<char>|
        label_set(labels.push(None)).contains(n) <==> label_set(labels).contains(n) by {
        lemma_contains_push(labels, None, Some(n));
    }
}

/// A finished build or pull adds exactly its recipe's name to the set of
/// listed recipe names: the image it leaves behind carries the
/// association label, and no other association changes.
pub proof fn lemma_provision_adds_label(labels: Seq<Option<Seq<char>>>, name: Seq<char>)
    ensures
        label_set(labels.push(Some(name))) =~= label_set(labels).insert(name),
{
    assert forall|n: Seq<char>|
        label_set(labels.push(Some(name))).contains(n) <==> (label_set(labels).insert(
            name,
        )).contains(n) by {
        lemma_contains_push(labels, Some(name), Some(n));
    }
}

/// A label-filtered prune removes exactly the pruned name from the set of
/// listed recipe names, and leaves every other association alone.
pub proof fn lemma_prune_removes_label(labels: Seq<Option<Seq<char>>>, name: Seq<char>)
    ensures
        label_set(surviving(labels, name)) =~= label_set(labels).remove(name),
    decreases labels.len(),
{
    if labels.len() == 0 {
        assert(label_set(surviving(labels, name)) =~= label_set(labels).remove(name));
    } else {
        let pre = labels.drop_last();
        let x = labels.last();
        lemma_prune_removes_label(pre, name);
        assert(labels =~= pre.push(x));
        assert forall|n: Seq<char>|
            label_set(surviving(labels, name)).contains(n) <==> (label_set(labels).remove(
                name,
            )).contains(n) by {
            lemma_contains_push(pre, x, Some(n));
            assert(labels.contains(Some(n)) <==> (pre.contains(Some(n)) || x == Some(n)));
            assert(label_set(surviving(pre, name)).contains(n) <==> (label_set(pre).remove(
                name,
            )).contains(n));
            assert(label_set(pre).remove(name).contains(n) <==> (pre.contains(Some(n)) && n
                != name));
            if x == Some(name) {
                assert(surviving(labels, name) == surviving(pre, name));
            } else {
                assert(surviving(labels, name) == surviving(pre, name).push(x));
                lemma_contains_push(surviving(pre, name), x, Some(n));
                assert(surviving(labels, name).contains(Some(n)) <==> (surviving(
                    pre,
                    name,
                ).contains(Some(n)) || x == Some(n)));
            }
            assert(label_set(surviving(labels, name)).contains(n) == surviving(
                labels,
                name,
            ).contains(Some(n)));
            assert(label_set(labels).remove(name).contains(n) <==> (labels.contains(Some(n)) && n
                != name));
        }
    }
}

/// The fixed key of the association label; its value is the recipe name.
/// Listing and pruning filter by this key, and nothing else links an image
/// back to its recipe.
pub fn association_label_key() -> (r: String)
    ensures
        r@ == "mastiff.recipe-name"@,
{
    String::from_str("mastiff.recipe-name")
}

/// The store after a build or pull for `name` completed: one more image
/// carrying the association label with the recipe's name as its value.
/// Every image this pipeline creates carries exactly that label.
pub fn apply_provision(images: &Vec<EngineImage>, name: &str) -> (r: Vec<EngineImage>)
    ensures
        r.deep_view() == images.deep_view().push(Some(name@)),
{
    let mut r: Vec<EngineImage> = Vec::new();
    let mut i: usize = 0;
    proof {
        assert(r.deep_view() =~= images.deep_view().subrange(0, 0));
    }
    while i < images.len()
        invariant
            i <= images@.len(),
            images.deep_view().len() == images@.len(),
            r.deep_view() == images.deep_view().subrange(0, i as int),
        decreases images@.len() - i,
    {
        let ghost rd = r.deep_view();
        let copy = EngineImage {
            recipe_label: match &images[i].recipe_label {
                Some(lbl) => Some(lbl.clone()),
                None => None,
            },
        };
        r.push(copy);
        proof {
            assert(r.deep_view() =~= rd.push(images.deep_view()[i as int]));
            assert(r.deep_view() =~= images.deep_view().subrange(0, i as int + 1));
        }
        i += 1;
    }
    proof {
        assert(images.deep_view().subrange(0, i as int) =~= images.deep_view());
    }
    let ghost rd = r.deep_view();
    r.push(EngineImage { recipe_label: Some(String::from_str(name)) });
    proof {
        assert(r.deep_view() =~= rd.push(Some(name@)));
    }
    r
}

/// Turns the engine's report of deleted images into the count handed back
/// by a recipe deletion: the reported list's length, or zero when the
/// engine reports none.
pub fn deleted_count(images_deleted: &Option<Vec<String>>) -> (r: usize)
    ensures
        match images_deleted {
            Some(v) => r == v@.len(),
            None => r == 0,
        },
{
    match images_deleted {
        Some(v) => v.len(),
        None => 0,
    }
}

} // verus!
