//! Where the prompt directories are looked for, in bundled and in development
//! layouts. Whether a directory is there is asked of the caller.

use vstd::prelude::*;
use vstd::utf8::encode_utf8;

verus! {

/// How many directories above the working directory are searched.
pub const MAX_LEVELS_UP: usize = 8;

/// A path in parts. What stands before the first name (a drive, a leading
/// slash) is never taken away by going up.
#[derive(Debug, PartialEq, Eq)]
pub struct DirPath {
    /// Prefix and root, as the system writes them; empty for a relative path.
    pub anchor: Vec<u8>,
    /// The names, from the outermost to the innermost.
    pub names: Vec<Vec<u8>>,
}

/// A path as sequences of bytes.
pub struct PathView {
    pub anchor: Seq<u8>,
    pub names: Seq<Seq<u8>>,
}

impl View for DirPath {
    type V = PathView;

    open spec fn view(&self) -> PathView {
        PathView {
            anchor: self.anchor@,
            names: Seq::new(self.names@.len(), |i: int| self.names@[i]@),
        }
    }
}

impl PathView {
    /// The path one name further down.
    pub open spec fn join(self, name: Seq<char>) -> PathView {
        PathView { names: self.names.push(encode_utf8(name)), ..self }
    }

    /// The path some names further up.
    pub open spec fn up(self, levels: nat) -> PathView {
        PathView { names: self.names.take(self.names.len() - levels), ..self }
    }
}

/// The places of the prompt directory inside a bundled resource directory, in
/// the order in which they are tried.
pub open spec fn bundled_candidates(resource_dir: PathView) -> Seq<PathView> {
    seq![
        resource_dir.join("Benito"@).join("agent"@).join("prompts"@),
        resource_dir.join("prompts"@),
        resource_dir.join("ai"@),
        resource_dir.join("src"@).join("Benito"@).join("agent"@).join("prompts"@),
    ]
}

/// The prompt directory of a source tree.
pub open spec fn repo_prompts(base: PathView) -> PathView {
    base.join("src"@).join("Benito"@).join("agent"@).join("prompts"@)
}

/// The places of the prompt directory above a working directory, the nearest
/// first.
pub open spec fn repo_candidates(cwd: PathView) -> Seq<PathView> {
    Seq::new(
        1 + if cwd.names.len() < MAX_LEVELS_UP {
            cwd.names.len()
        } else {
            MAX_LEVELS_UP as nat
        },
        |levels: int| repo_prompts(cwd.up(levels as nat)),
    )
}

/// The caller was asked whether `path` is a directory and gave this answer.
pub open spec fn answered<F: Fn(&DirPath) -> bool>(
    is_dir: F,
    path: PathView,
    answer: bool,
) -> bool {
    exists|p: DirPath| #[trigger] is_dir.ensures((&p,), answer) && p@ == path
}

/// `found` is the first of the candidates that is a directory, or nothing if
/// none is, by the answers of the caller.
pub open spec fn is_first_dir<F: Fn(&DirPath) -> bool>(
    is_dir: F,
    candidates: Seq<PathView>,
    found: Option<DirPath>,
) -> bool {
    match found {
        Some(path) => exists|i: int|
            {
                &&& 0 <= i < candidates.len()
                &&& path@ == #[trigger] candidates[i]
                &&& answered(is_dir, candidates[i], true)
                &&& forall|j: int|
                    0 <= j < i ==> answered(is_dir, #[trigger] candidates[j], false)
            },
        None => forall|j: int|
            0 <= j < candidates.len() ==> answered(is_dir, #[trigger] candidates[j], false),
    }
}

fn copy_bytes(bytes: &Vec<u8>) -> (r: Vec<u8>)
    ensures
        r@ == bytes@,
{
    let mut r: Vec<u8> = Vec::new();
    r.extend_from_slice(bytes.as_slice());
    assert(r@ =~= bytes@);
    r
}

impl DirPath {
    /// The path some names further up, or nothing if it has too few names.
    fn ancestor(&self, levels: usize) -> (r: Option<DirPath>)
        ensures
            match r {
                Some(p) => levels <= self@.names.len() && p@ == self@.up(levels as nat),
                None => levels > self@.names.len(),
            },
    {
        if levels > self.names.len() {
            return None;
        }
        let kept: usize = self.names.len() - levels;
        let mut names: Vec<Vec<u8>> = Vec::new();
        let mut i: usize = 0;
        while i < kept
            invariant
                i <= kept <= self.names@.len(),
                names@.len() == i,
                forall|j: int| 0 <= j < i ==> (#[trigger] names@[j])@ == self.names@[j]@,
            decreases kept - i,
        {
            names.push(copy_bytes(&self.names[i]));
            i += 1;
        }
        let p = DirPath { anchor: copy_bytes(&self.anchor), names };
        assert(p@.names =~= self@.up(levels as nat).names);
        Some(p)
    }

    /// The path one name further down.
    fn joined(self, name: &str) -> (r: DirPath)
        ensures
            r@ == self@.join(name@),
    {
        let mut r = self;
        r.names.push(name.as_bytes_vec());
        assert(r@.names =~= self@.join(name@).names);
        r
    }

    fn copy(&self) -> (r: DirPath)
        ensures
            r@ == self@,
    {
        match self.ancestor(0) {
            Some(p) => {
                assert(self@.up(0).names =~= self@.names);
                p
            },
            None => DirPath { anchor: Vec::new(), names: Vec::new() },
        }
    }

    fn repo_prompts(self) -> (r: DirPath)
        ensures
            r@ == repo_prompts(self@),
    {
        self.joined("src").joined("Benito").joined("agent").joined("prompts")
    }
}

/// The first of the candidates that is a directory.
fn first_dir<F: Fn(&DirPath) -> bool>(candidates: Vec<DirPath>, is_dir: F) -> (found: Option<
    DirPath,
>)
    requires
        forall|p: &DirPath| #[trigger] is_dir.requires((p,)),
    ensures
        is_first_dir(is_dir, Seq::new(candidates@.len(), |i: int| candidates@[i]@), found),
{
    let ghost all = Seq::new(candidates@.len(), |i: int| candidates@[i]@);
    let mut i: usize = 0;
    while i < candidates.len()
        invariant
            i <= candidates@.len(),
            all == Seq::new(candidates@.len(), |i: int| candidates@[i]@),
            forall|p: &DirPath| #[trigger] is_dir.requires((p,)),
            forall|j: int| 0 <= j < i ==> answered(is_dir, #[trigger] all[j], false),
        decreases candidates@.len() - i,
    {
        let answer = is_dir(&candidates[i]);
        assert(is_dir.ensures((&candidates@[i as int],), answer));
        assert(answered(is_dir, all[i as int], answer));
        if answer {
            return Some(candidates[i].copy());
        }
        i += 1;
    }
    None
}

/// The prompt directory inside a bundled resource directory: the first of its
/// usual places that is a directory.
pub fn bundled_openclaw_prompts_dir<F: Fn(&DirPath) -> bool>(
    resource_dir: &DirPath,
    is_dir: F,
) -> (found: Option<DirPath>)
    requires
        forall|p: &DirPath| #[trigger] is_dir.requires((p,)),
    ensures
        is_first_dir(is_dir, bundled_candidates(resource_dir@), found),
{
    let mut candidates: Vec<DirPath> = Vec::new();
    candidates.push(resource_dir.copy().joined("Benito").joined("agent").joined("prompts"));
    candidates.push(resource_dir.copy().joined("prompts"));
    candidates.push(resource_dir.copy().joined("ai"));
    candidates.push(resource_dir.copy().repo_prompts());
    assert(Seq::new(candidates@.len(), |i: int| candidates@[i]@) =~= bundled_candidates(
        resource_dir@,
    ));
    first_dir(candidates, is_dir)
}

/// The prompt directory of the source tree that holds the working directory:
/// looked for in the working directory itself and then in the directories above
/// it, the nearest first, as far as there are any and no more than eight up.
pub fn repo_ai_prompts_dir<F: Fn(&DirPath) -> bool>(cwd: &DirPath, is_dir: F) -> (found: Option<
    DirPath,
>)
    requires
        forall|p: &DirPath| #[trigger] is_dir.requires((p,)),
    ensures
        is_first_dir(is_dir, repo_candidates(cwd@), found),
{
    let mut candidates: Vec<DirPath> = Vec::new();
    let mut levels: usize = 0;
    while levels <= MAX_LEVELS_UP
        invariant
            levels <= MAX_LEVELS_UP + 1,
            candidates@.len() == (if levels <= cwd@.names.len() {
                levels as nat
            } else {
                cwd@.names.len() + 1
            }),
            forall|j: int|
                0 <= j < candidates@.len() ==> (#[trigger] candidates@[j])@ == repo_prompts(
                    cwd@.up(j as nat),
                ),
        decreases MAX_LEVELS_UP + 1 - levels,
    {
        match cwd.ancestor(levels) {
            Some(base) => candidates.push(base.repo_prompts()),
            None => {},
        }
        levels += 1;
    }
    assert(Seq::new(candidates@.len(), |i: int| candidates@[i]@) =~= repo_candidates(cwd@));
    first_dir(candidates, is_dir)
}

/// Every place that is tried in a bundle lies inside the resource directory.
pub proof fn law_bundled_stays_inside(resource_dir: PathView, i: int)
    requires
        0 <= i < bundled_candidates(resource_dir).len(),
    ensures
        bundled_candidates(resource_dir)[i].anchor == resource_dir.anchor,
        bundled_candidates(resource_dir)[i].names.len() > resource_dir.names.len(),
        bundled_candidates(resource_dir)[i].names.take(resource_dir.names.len() as int)
            == resource_dir.names,
{
    assert(bundled_candidates(resource_dir)[i].names.take(resource_dir.names.len() as int)
        =~= resource_dir.names);
}

/// Every place that is tried above a working directory ends in the names of the
/// prompt directory, and what stands before them is a head of the working
/// directory, no more than eight names shorter.
pub proof fn law_repo_candidate_shape(cwd: PathView, i: int)
    requires
        0 <= i < repo_candidates(cwd).len(),
    ensures
        i <= MAX_LEVELS_UP,
        i <= cwd.names.len(),
        repo_candidates(cwd)[i].anchor == cwd.anchor,
        repo_candidates(cwd)[i].names == cwd.names.take(cwd.names.len() - i) + seq![
            encode_utf8("src"@),
            encode_utf8("Benito"@),
            encode_utf8("agent"@),
            encode_utf8("prompts"@),
        ],
{
    assert(repo_candidates(cwd)[i].names =~= cwd.names.take(cwd.names.len() - i) + seq![
        encode_utf8("src"@),
        encode_utf8("Benito"@),
        encode_utf8("agent"@),
        encode_utf8("prompts"@),
    ]);
}

/// The four places in a bundle, in the order in which they are tried.
pub proof fn law_places_in_a_bundle(dir: PathView)
    ensures
        bundled_candidates(dir).len() == 4,
        forall|i: int| 0 <= i < 4 ==> (#[trigger] bundled_candidates(dir)[i]).anchor == dir.anchor,
        bundled_candidates(dir)[0].names == dir.names + seq![
            encode_utf8("Benito"@),
            encode_utf8("agent"@),
            encode_utf8("prompts"@),
        ],
        bundled_candidates(dir)[1].names == dir.names + seq![encode_utf8("prompts"@)],
        bundled_candidates(dir)[2].names == dir.names + seq![encode_utf8("ai"@)],
        bundled_candidates(dir)[3].names == dir.names + seq![
            encode_utf8("src"@),
            encode_utf8("Benito"@),
            encode_utf8("agent"@),
            encode_utf8("prompts"@),
        ],
{
    assert(bundled_candidates(dir)[0].names =~= dir.names + seq![
        encode_utf8("Benito"@),
        encode_utf8("agent"@),
        encode_utf8("prompts"@),
    ]);
    assert(bundled_candidates(dir)[1].names =~= dir.names + seq![encode_utf8("prompts"@)]);
    assert(bundled_candidates(dir)[2].names =~= dir.names + seq![encode_utf8("ai"@)]);
    assert(bundled_candidates(dir)[3].names =~= dir.names + seq![
        encode_utf8("src"@),
        encode_utf8("Benito"@),
        encode_utf8("agent"@),
        encode_utf8("prompts"@),
    ]);
}

/// Above a working directory as many places are tried as there are directories up to
/// the root, and one more, but no more than nine.
pub proof fn law_places_above_a_directory(cwd: PathView)
    ensures
        repo_candidates(cwd).len() == (if cwd.names.len() < 8 {
            cwd.names.len() + 1
        } else {
            9
        }),
{
}

/// Where the file system gives steady answers, the search finds the first candidate
/// that is a directory, and nothing exactly if none is.
pub proof fn law_search_finds_the_first<F: Fn(&DirPath) -> bool>(
    is_dir: F,
    dirs: spec_fn(PathView) -> bool,
    candidates: Seq<PathView>,
    found: Option<DirPath>,
)
    requires
        forall|p: DirPath, answer: bool| #[trigger]
            is_dir.ensures((&p,), answer) ==> answer == dirs(p@),
        is_first_dir(is_dir, candidates, found),
    ensures
        found is None <==> forall|i: int|
            0 <= i < candidates.len() ==> !dirs(#[trigger] candidates[i]),
        found matches Some(path) ==> exists|i: int|
            {
                &&& 0 <= i < candidates.len()
                &&& path@ == #[trigger] candidates[i]
                &&& dirs(candidates[i])
                &&& forall|j: int| 0 <= j < i ==> !dirs(#[trigger] candidates[j])
            },
{
    assert forall|path: PathView, answer: bool| #[trigger]
        answered(is_dir, path, answer) implies answer == dirs(path) by {
        let p = choose|p: DirPath| #[trigger] is_dir.ensures((&p,), answer) && p@ == path;
    }
    match found {
        Some(path) => {
            let i = choose|i: int|
                {
                    &&& 0 <= i < candidates.len()
                    &&& path@ == #[trigger] candidates[i]
                    &&& answered(is_dir, candidates[i], true)
                    &&& forall|j: int|
                        0 <= j < i ==> answered(is_dir, #[trigger] candidates[j], false)
                };
            assert(dirs(candidates[i]));
            assert forall|j: int| 0 <= j < i implies !dirs(#[trigger] candidates[j]) by {
                assert(answered(is_dir, candidates[j], false));
            }
        },
        None => {
            assert forall|j: int| 0 <= j < candidates.len() implies !dirs(
                #[trigger] candidates[j],
            ) by {
                assert(answered(is_dir, candidates[j], false));
            }
        },
    }
}

/// A path shows its anchor and its names in order.
pub proof fn law_path_is_seen(path: DirPath, i: int)
    ensures
        path@.anchor == path.anchor@,
        path@.names.len() == path.names@.len(),
        0 <= i < path.names@.len() ==> path@.names[i] == path.names@[i]@,
{
}

} // verus!
