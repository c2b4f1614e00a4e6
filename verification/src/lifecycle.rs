//! The recipe lifecycle: listing workspace directories, planning a build,
//! screening archive entries on upload, and planning a deletion.
//!
//! The workspace root on disk is the source of truth for which recipes
//! exist.  The caller performs the filesystem and engine I/O and hands the
//! observed values in (directory entries, the manifest's text, archive
//! member paths, the engine's answers); the functions here make every
//! decision about them.

use vstd::prelude::*;

use crate::errors::RecipeError;
use crate::image::Image;
use crate::image::ImageSource;
use crate::manifest::ImageTypeV;
use crate::manifest::Recipe;
use crate::manifest::parse_manifest;
use crate::paths::contains_string;
use crate::paths::entry_path_is_safe;
use crate::paths::file_name_of;
use crate::paths::join_path;
use crate::paths::joined;
use crate::paths::recipe_name_is_valid;
use crate::paths::safe_entry_path;
use crate::paths::valid_recipe_name;

verus! {

/// One entry of the workspace root's directory listing, as the caller
/// observed it.
#[derive(Debug)]
pub struct DirEntry {
    /// The entry's file name.
    pub name: String,
    /// Whether the entry is a directory.
    pub is_dir: bool,
}

/// The names of the directories among the entries, in listing order.
/// Nothing inspects the directories' contents: a directory without a
/// usable manifest is still a recipe name.
pub open spec fn recipe_names_of(entries: Seq<DirEntry>) -> Seq<Seq<char>>
    decreases entries.len(),
{
    if entries.len() == 0 {
        Seq::<Seq<char>>::empty()
    } else {
        let rest = recipe_names_of(entries.drop_last());
        if entries.last().is_dir {
            rest.push(entries.last().name@)
        } else {
            rest
        }
    }
}

/// Listing reports every directory under the workspace root — also one
/// holding no manifest file, since nothing inspects directory contents; a
/// build of such a name then fails with a manifest parse error instead of
/// silently succeeding.
pub proof fn lemma_listing_reports_every_directory(entries: Seq<DirEntry>, e: DirEntry)
    requires
        entries.contains(e),
        e.is_dir,
    ensures
        recipe_names_of(entries).contains(e.name@),
    decreases entries.len(),
{
    let pre = entries.drop_last();
    let x = entries.last();
    assert(entries =~= pre.push(x));
    lemma_seq_contains_push(pre, x, e);
    if pre.contains(e) {
        lemma_listing_reports_every_directory(pre, e);
        if x.is_dir {
            lemma_seq_contains_push(recipe_names_of(pre), x.name@, e.name@);
        }
    } else {
        assert(x == e);
        lemma_seq_contains_push(recipe_names_of(pre), x.name@, e.name@);
    }
}

/// The archive member paths that may be unpacked, in archive order.
pub open spec fn safe_entries(paths: Seq<Seq<char>>) -> Seq<Seq<char>>
    decreases paths.len(),
{
    if paths.len() == 0 {
        Seq::<Seq<char>>::empty()
    } else {
        let rest = safe_entries(paths.drop_last());
        if safe_entry_path(paths.last()) {
            rest.push(paths.last())
        } else {
            rest
        }
    }
}

/// The archive member paths that must be rejected, in archive order.
pub open spec fn rejected_entries(paths: Seq<Seq<char>>) -> Seq<Seq<char>>
    decreases paths.len(),
{
    if paths.len() == 0 {
        Seq::<Seq<char>>::empty()
    } else {
        let rest = rejected_entries(paths.drop_last());
        if safe_entry_path(paths.last()) {
            rest
        } else {
            rest.push(paths.last())
        }
    }
}

/// Unpacking `paths` writes exactly the safe relative member paths — each
/// one resolves below the target directory — and a member path that is
/// absolute or escapes through a parent-directory segment is never among
/// them, whatever the archive holds.
pub proof fn lemma_unpack_writes_exactly_the_safe_entries(paths: Seq<Seq<char>>)
    ensures
        forall|k: int|
            0 <= k < safe_entries(paths).len() ==> safe_entry_path(safe_entries(paths)[k]),
        forall|p: Seq<char>|
            paths.contains(p) && safe_entry_path(p) ==> safe_entries(paths).contains(p),
        forall|p: Seq<char>| safe_entries(paths).contains(p) ==> paths.contains(p),
    decreases paths.len(),
{
    if paths.len() > 0 {
        let pre = paths.drop_last();
        let x = paths.last();
        lemma_unpack_writes_exactly_the_safe_entries(pre);
        assert(paths =~= pre.push(x));
        assert forall|p: Seq<char>|
            paths.contains(p) && safe_entry_path(p) implies safe_entries(paths).contains(p) by {
            lemma_seq_contains_push(pre, x, p);
            if pre.contains(p) {
                if safe_entry_path(x) {
                    lemma_seq_contains_push(safe_entries(pre), x, p);
                }
            } else {
                assert(p == x);
                lemma_seq_contains_push(safe_entries(pre), x, p);
            }
        }
        assert forall|p: Seq<char>|
            safe_entries(paths).contains(p) implies paths.contains(p) by {
            if safe_entry_path(x) {
                lemma_seq_contains_push(safe_entries(pre), x, p);
            }
            lemma_seq_contains_push(pre, x, p);
        }
    }
}

proof fn lemma_seq_contains_push<A>(s: Seq<A>, x: A, y: A)
    ensures
        s.push(x).contains(y) <==> (s.contains(y) || x == y),
{
    if s.push(x).contains(y) {
        let k = choose|k: int| 0 <= k < s.push(x).len() && s.push(x)[k] == y;
        if k < s.len() {
            assert(s[k] == y);
        }
    }
    if s.contains(y) {
        let k = choose|k: int| 0 <= k < s.len() && s[k] == y;
        assert(s.push(x)[k] == y);
    }
    if x == y {
        assert(s.push(x)[s.len() as int] == y);
    }
}

/// What an upload's screened unpacking writes, and where.
#[derive(Debug)]
pub struct UnpackPlan {
    /// The recipe's workspace directory, every write's common root.
    pub recipe_path: String,
    /// The member paths to unpack, relative to `recipe_path`.
    pub accepted: Vec<String>,
    /// The member paths rejected as absolute or directory-escaping.
    pub rejected: Vec<String>,
}

/// Whether deleting `name` removes a workspace directory: only when the
/// workspace listing holds that name.
pub open spec fn delete_removes_dir(recipes: Seq<Seq<char>>, name: Seq<char>) -> bool {
    recipes.contains(name)
}

/// What a recipe deletion does.  The image prune is issued whether or not
/// the directory existed: deletion tolerates orphaned state on either
/// side.
#[derive(Debug)]
pub struct DeletePlan {
    /// Remove the recipe's workspace directory first.
    pub remove_dir: bool,
    /// The name whose labeled images are pruned, in every case.
    pub prune_name: String,
}

/// Deleting a recipe name absent from the workspace removes no directory,
/// yet still issues the image-deletion attempt — absence is success, not
/// an error.
pub proof fn lemma_delete_absent_recipe(recipes: Seq<Seq<char>>, name: Seq<char>)
    requires
        !recipes.contains(name),
    ensures
        !delete_removes_dir(recipes, name),
{
}

/// Coordinates one workspace root's recipes with their images.
#[derive(Debug, Clone)]
pub struct RecipeManager {
    /// The workspace root: one directory per recipe.
    pub recipe_directory: String,
}

impl RecipeManager {
    /// A coordinator for the workspace root at `recipe_directory`.
    pub fn new(recipe_directory: &str) -> (r: RecipeManager)
        ensures
            r.recipe_directory@ == recipe_directory@,
    {
        RecipeManager { recipe_directory: String::from_str(recipe_directory) }
    }

    /// The recipes the workspace holds: the names of the root's immediate
    /// subdirectories, exactly as `recipe_names_of` describes them.  No
    /// manifest is read — a directory with no usable manifest is still
    /// reported, and only a later build discovers the difference.
    pub fn list_recipes(&self, entries: &Vec<DirEntry>) -> (r: Vec<String>)
        ensures
            r.deep_view() == recipe_names_of(entries@),
    {
        let mut r: Vec<String> = Vec::new();
        let mut i: usize = 0;
        proof {
            assert(entries@.subrange(0, 0) =~= Seq::<DirEntry>::empty());
            assert(r.deep_view() =~= recipe_names_of(entries@.subrange(0, 0)));
        }
        while i < entries.len()
            invariant
                i <= entries@.len(),
                r.deep_view() == recipe_names_of(entries@.subrange(0, i as int)),
            decreases entries@.len() - i,
        {
            let ghost pre = entries@.subrange(0, i as int);
            let ghost pre1 = entries@.subrange(0, i as int + 1);
            proof {
                assert(pre1.drop_last() =~= pre);
            }
            if entries[i].is_dir {
                let ghost rd = r.deep_view();
                r.push(entries[i].name.clone());
                proof {
                    assert(r.deep_view() =~= rd.push(entries@[i as int].name@));
                }
            }
            i += 1;
        }
        proof {
            assert(entries@.subrange(0, i as int) =~= entries@);
        }
        r
    }

    /// Plans a build for the recipe at `recipe_path`, from the text of the
    /// manifest file found there (`None` when the file is missing or
    /// unreadable).  A missing or malformed manifest aborts with a parse
    /// error before anything touches the engine; otherwise the recipe's
    /// image source decides what the engine is asked for: a registry
    /// reference is pulled under that reference, a local source is built
    /// from the recipe's own directory under the recipe directory's name.
    pub fn build_recipe(&self, recipe_path: &str, manifest_text: Option<&str>) -> (r: Result<
        (Recipe, Image),
        RecipeError,
    >)
        ensures
            manifest_text is None ==> (r matches Err(e) && e is ManifestParse),
            manifest_text matches Some(t) ==> {
                &&& r is Ok <==> parse_manifest(t@) is Some
                &&& (r matches Ok(pair) ==> {
                    &&& parse_manifest(t@) == Some(pair.0@)
                    &&& match pair.0@.image {
                        ImageTypeV::Registry(reference) => pair.1.name@ == reference
                            && pair.1.source is Registry,
                        ImageTypeV::Local => pair.1.name@ == file_name_of(recipe_path@)
                            && (pair.1.source matches ImageSource::Local { path } && path@
                            == recipe_path@),
                    }
                })
                &&& (r matches Err(e) ==> e is ManifestParse)
            },
    {
        let text = match manifest_text {
            Some(t) => t,
            None => {
                return Err(
                    RecipeError::ManifestParse(
                        String::from_str("the recipe directory holds no readable manifest"),
                    ),
                );
            },
        };
        let recipe = match Recipe::parse(text) {
            Ok(recipe) => recipe,
            Err(e) => {
                return Err(e);
            },
        };
        let image = match &recipe.image {
            crate::manifest::ImageType::Registry(reference) => Image::new_registry(
                reference.as_str(),
            ),
            crate::manifest::ImageType::Local => Image::new_local(recipe_path),
        };
        Ok((recipe, image))
    }

    /// Screens an upload for the recipe `recipe_name`: names the workspace
    /// directory the archive unpacks into, accepts exactly the member
    /// paths that resolve below it, and rejects every absolute or
    /// directory-escaping member path without writing it anywhere.  A
    /// recipe name that is itself no single safe path component is
    /// rejected outright.
    pub fn decompress_files(&self, recipe_name: &str, entry_paths: &Vec<String>) -> (r: Result<
        UnpackPlan,
        RecipeError,
    >)
        ensures
            r is Ok <==> valid_recipe_name(recipe_name@),
            r matches Ok(plan) ==> {
                &&& plan.recipe_path@ == joined(self.recipe_directory@, recipe_name@)
                &&& plan.accepted.deep_view() == safe_entries(entry_paths.deep_view())
                &&& plan.rejected.deep_view() == rejected_entries(entry_paths.deep_view())
            },
            r matches Err(e) ==> e is PathTraversal,
    {
        if !recipe_name_is_valid(recipe_name) {
            return Err(
                RecipeError::PathTraversal(
                    String::from_str("the recipe name is not a single safe path component"),
                ),
            );
        }
        let recipe_path = join_path(self.recipe_directory.as_str(), recipe_name);
        let ghost pdv = entry_paths.deep_view();
        let mut accepted: Vec<String> = Vec::new();
        let mut rejected: Vec<String> = Vec::new();
        let mut i: usize = 0;
        proof {
            assert(pdv.subrange(0, 0) =~= Seq::<Seq<char>>::empty());
            assert(accepted.deep_view() =~= safe_entries(pdv.subrange(0, 0)));
            assert(rejected.deep_view() =~= rejected_entries(pdv.subrange(0, 0)));
        }
        while i < entry_paths.len()
            invariant
                pdv == entry_paths.deep_view(),
                pdv.len() == entry_paths@.len(),
                i <= entry_paths@.len(),
                accepted.deep_view() == safe_entries(pdv.subrange(0, i as int)),
                rejected.deep_view() == rejected_entries(pdv.subrange(0, i as int)),
            decreases entry_paths@.len() - i,
        {
            let ghost pre = pdv.subrange(0, i as int);
            let ghost pre1 = pdv.subrange(0, i as int + 1);
            proof {
                assert(pre1.drop_last() =~= pre);
                assert(pdv[i as int] == entry_paths@[i as int]@);
            }
            if entry_path_is_safe(entry_paths[i].as_str()) {
                let ghost ad = accepted.deep_view();
                accepted.push(entry_paths[i].clone());
                proof {
                    assert(accepted.deep_view() =~= ad.push(pdv[i as int]));
                }
            } else {
                let ghost rd = rejected.deep_view();
                rejected.push(entry_paths[i].clone());
                proof {
                    assert(rejected.deep_view() =~= rd.push(pdv[i as int]));
                }
            }
            i += 1;
        }
        proof {
            assert(pdv.subrange(0, i as int) =~= pdv);
        }
        Ok(UnpackPlan { recipe_path, accepted, rejected })
    }

    /// Plans the deletion of `recipe_name`, given the workspace listing:
    /// the directory is removed only when the listing holds the name, and
    /// the image prune is issued in every case, so deletion succeeds for
    /// names that were never uploaded and cleans up images whose directory
    /// is already gone.
    pub fn delete_recipe(&self, recipes: &Vec<String>, recipe_name: &str) -> (r: DeletePlan)
        ensures
            r.remove_dir == delete_removes_dir(recipes.deep_view(), recipe_name@),
            r.prune_name@ == recipe_name@,
    {
        let remove_dir = contains_string(recipes, recipe_name);
        DeletePlan { remove_dir, prune_name: String::from_str(recipe_name) }
    }
}

} // verus!
