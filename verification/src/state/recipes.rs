use vstd::prelude::*;
use vstd::string::*;

use crate::error::Failure;
use crate::error::ValidationError;
use crate::io::string_views;
use crate::io::Request;
use crate::io::RequestView;
use crate::text::decimal;
use crate::text::decimal_string;
use crate::text::lemma_lex_le_total;
use crate::text::lemma_lex_le_transitive;
use crate::text::lemma_lex_sort;
use crate::text::lex_le;
use crate::text::lex_sort;
use crate::text::lex_sorted;
use crate::text::str_eq;
use crate::text::str_le;

verus! {

/// Where the recipe called `name` is stored below the folder `root`.
pub open spec fn join(root: Seq<char>, name: Seq<char>) -> Seq<char> {
    root + seq!['/'] + name
}

/// Whether all of `names` start with the same character.
pub open spec fn all_alike(names: Seq<Seq<char>>) -> bool {
    forall|i: int| 0 <= i < names.len() ==> (#[trigger] names[i])[0] == names[0][0]
}

/// Mathematical model of the repository: the folder, the names of the
/// recipes in it and the position of the selected one.
pub struct RecipesView {
    pub root: Seq<char>,
    pub names: Seq<Seq<char>>,
    pub index: Option<int>,
}

impl RecipesView {
    /// Every name has a first character, the names are in lexicographic
    /// order, and a recipe is selected exactly if there is one.
    pub open spec fn wf(self) -> bool {
        &&& forall|i: int| 0 <= i < self.names.len() ==> (#[trigger] self.names[i]).len() > 0
        &&& lex_sorted(self.names)
        &&& match self.index {
            None => self.names.len() == 0,
            Some(i) => 0 <= i < self.names.len(),
        }
    }

    /// The repository that a listing of `root` with the names `sorted`
    /// gives: the last recipe is selected.
    pub open spec fn loaded(root: Seq<char>, sorted: Seq<Seq<char>>) -> RecipesView {
        RecipesView {
            root,
            names: sorted,
            index: if sorted.len() == 0 {
                None
            } else {
                Some(sorted.len() - 1)
            },
        }
    }

    /// The repository that the names found in the folder `root` give:
    /// they are put in lexicographic order; a name without a first
    /// character is refused.
    pub open spec fn load(root: Seq<char>, names: Seq<Seq<char>>) -> Result<RecipesView, Failure> {
        if forall|i: int| 0 <= i < names.len() ==> (#[trigger] names[i]).len() > 0 {
            Ok(RecipesView::loaded(root, lex_sort(names)))
        } else {
            Err(Failure::Validation(ValidationError::NoLeadingChar))
        }
    }

    /// Number of recipes.
    pub open spec fn len(self) -> nat {
        self.names.len()
    }

    /// First character of the name at position `i`, by which recipes
    /// are grouped.
    pub open spec fn first_char(self, i: int) -> char {
        self.names[i][0]
    }

    /// Name of the selected recipe.
    pub open spec fn current_name(self) -> Option<Seq<char>> {
        match self.index {
            Some(i) => Some(self.names[i]),
            None => None,
        }
    }

    /// Storage location of the selected recipe.
    pub open spec fn current_path(self) -> Option<Seq<char>> {
        match self.index {
            Some(i) => Some(join(self.root, self.names[i])),
            None => None,
        }
    }

    /// Whether a recipe called `name` exists.
    pub open spec fn contains(self, name: Seq<char>) -> bool {
        self.names.contains(name)
    }

    /// The selection moved to the next recipe, from the last to the
    /// first.
    pub open spec fn increment(self) -> RecipesView {
        match self.index {
            Some(i) => RecipesView {
                index: Some(if i + 1 == self.names.len() { 0 } else { i + 1 }),
                ..self
            },
            None => self,
        }
    }

    /// The selection moved to the previous recipe, from the first to
    /// the last.
    pub open spec fn decrement(self) -> RecipesView {
        match self.index {
            Some(i) => RecipesView {
                index: Some(if i == 0 { self.names.len() - 1 } else { i - 1 }),
                ..self
            },
            None => self,
        }
    }

    /// One plain step in the given direction.
    pub open spec fn step(self, forward: bool) -> RecipesView {
        if forward {
            self.increment()
        } else {
            self.decrement()
        }
    }

    /// Whether all names start with the same character. Skipping would
    /// never end in such a repository, so it does nothing there.
    pub open spec fn homogeneous(self) -> bool {
        all_alike(self.names)
    }

    /// Plain steps in the given direction for as long as the selected
    /// name starts with `sample`, and `fuel` steps at most.
    pub open spec fn run(self, sample: char, forward: bool, fuel: nat) -> RecipesView
        decreases fuel,
    {
        match self.index {
            Some(i) if fuel > 0 && self.first_char(i) == sample => self.step(forward).run(
                sample,
                forward,
                (fuel - 1) as nat,
            ),
            _ => self,
        }
    }

    /// The selection moved in the given direction to the nearest recipe
    /// whose name starts with another character than the selected one.
    pub open spec fn skip(self, forward: bool) -> RecipesView {
        match self.index {
            Some(i) if !self.homogeneous() => self.run(self.first_char(i), forward, self.len()),
            _ => self,
        }
    }

    /// The selection moved forward to the next group.
    pub open spec fn increment_skip(self) -> RecipesView {
        self.skip(true)
    }

    /// One step back, a skip backwards from there, and one step
    /// forward.
    pub open spec fn decrement_skip(self) -> RecipesView {
        self.decrement().skip(false).increment()
    }

    /// The position that `d` plain steps from position `i` lead to, for
    /// `d` up to the number of recipes.
    pub open spec fn walk(self, i: int, d: int, forward: bool) -> int {
        let n = self.names.len() as int;
        if forward {
            if i + d < n {
                i + d
            } else {
                i + d - n
            }
        } else {
            if i - d >= 0 {
                i - d
            } else {
                i - d + n
            }
        }
    }

    /// The repository with the selection at position `i`.
    pub open spec fn select(self, i: int) -> RecipesView {
        RecipesView { index: Some(i), ..self }
    }

    /// What the repository shows of itself: the selected name with its
    /// position, counted from one, and the number of recipes.
    pub open spec fn display(self) -> Seq<char> {
        match self.index {
            Some(i) => "◀ "@ + self.names[i] + " ["@ + decimal((i + 1) as nat) + "/"@ + decimal(
                self.len(),
            ) + "] ▶"@,
            None => "no recipes found"@,
        }
    }

    /// The storage operation that deletes the selected recipe.
    pub open spec fn delete(self) -> Option<RequestView> {
        match self.current_path() {
            Some(path) => Some(RequestView::Remove { path }),
            None => None,
        }
    }

    /// The storage operation that moves the selected recipe to `to`, or
    /// the error that refuses it.
    pub open spec fn rename(self, to: Seq<char>) -> Result<Option<RequestView>, Failure> {
        match self.current_path() {
            Some(from) => if from == to {
                Err(Failure::Validation(ValidationError::RenameNotNeeded))
            } else {
                Ok(Some(RequestView::Rename { from, to }))
            },
            None => Ok(None),
        }
    }
}

/// A stored recipe: where it lies, what it is called and the first
/// character of its name.
struct PathChar {
    path: String,
    name: String,
    first_char: char,
}

/// Ordered collection of the stored recipes with the current selection.
pub struct Recipes {
    root: String,
    paths: Vec<PathChar>,
    index: Option<usize>,
}

/// The names of `paths`, in the same order.
spec fn names_of(paths: Seq<PathChar>) -> Seq<Seq<char>> {
    paths.map_values(|p: PathChar| p.name@)
}

impl View for Recipes {
    type V = RecipesView;

    closed spec fn view(&self) -> RecipesView {
        RecipesView {
            root: self.root@,
            names: names_of(self.paths@),
            index: match self.index {
                Some(i) => Some(i as int),
                None => None,
            },
        }
    }
}

/// Each entry holds the first character and the location that belong to
/// its name.
spec fn entries_ok(root: Seq<char>, paths: Seq<PathChar>) -> bool {
    forall|i: int|
        0 <= i < paths.len() ==> {
            &&& (#[trigger] paths[i]).name@.len() > 0
            &&& paths[i].first_char == paths[i].name@[0]
            &&& paths[i].path@ == join(root, paths[i].name@)
        }
}

/// Putting `x` into a sorted sequence behind all that come before it
/// and before the first that comes after it keeps the sequence sorted.
proof fn lemma_insert_sorted(s: Seq<Seq<char>>, pos: int, x: Seq<char>)
    requires
        lex_sorted(s),
        0 <= pos <= s.len(),
        forall|k: int| 0 <= k < pos ==> lex_le(#[trigger] s[k], x),
        pos < s.len() ==> !lex_le(s[pos], x),
    ensures
        lex_sorted(s.insert(pos, x)),
{
    let t = s.insert(pos, x);
    assert forall|i: int, j: int| 0 <= i < j < t.len() implies lex_le(t[i], t[j]) by {
        if j == pos {
            assert(t[i] == s[i]);
        } else if i == pos {
            assert(t[j] == s[j - 1]);
            lemma_lex_le_total(s[pos], x);
            if j - 1 > pos {
                lemma_lex_le_transitive(x, s[pos], s[j - 1]);
            }
        } else {
            let a = if i < pos { i } else { i - 1 };
            let b = if j < pos { j } else { j - 1 };
            assert(t[i] == s[a] && t[j] == s[b]);
        }
    }
}

/// The location of the recipe called `name` below the folder `root`.
pub fn join_path(root: &str, name: &str) -> (path: String)
    ensures
        path@ == join(root@, name@),
{
    let mut path = String::from_str(root);
    proof {
        reveal_strlit("/");
    }
    path.append("/");
    path.append(name);
    assert("/"@ =~= seq!['/']);
    path
}

impl Recipes {
    /// Every repository is well formed, and each of its entries holds
    /// the first character and the location that belong to its name.
    #[verifier::type_invariant]
    closed spec fn inv(self) -> bool {
        &&& self@.wf()
        &&& entries_ok(self.root@, self.paths@)
    }

    /// Builds the repository from the names found in the folder `root`:
    /// the names are put in lexicographic order and the last one is
    /// selected. A name without a first character is refused.
    pub fn new(root: &str, names: Vec<String>) -> (r: Result<Self, Failure>)
        ensures
            match r {
                Ok(recipes) => {
                    &&& RecipesView::load(root@, string_views(names@)) == Ok::<
                        RecipesView,
                        Failure,
                    >(recipes@)
                    &&& recipes@.wf()
                },
                Err(e) => RecipesView::load(root@, string_views(names@)) == Err::<
                    RecipesView,
                    Failure,
                >(e),
            },
    {
        let mut paths: Vec<PathChar> = Vec::new();
        let mut i: usize = 0;
        assert(string_views(names@).take(0) =~= Seq::<Seq<char>>::empty());
        assert(names_of(paths@) =~= Seq::<Seq<char>>::empty());
        while i < names.len()
            invariant
                i <= names.len(),
                forall|k: int| 0 <= k < i ==> (#[trigger] names@[k])@.len() > 0,
                entries_ok(root@, paths@),
                lex_sorted(names_of(paths@)),
                names_of(paths@).to_multiset() == string_views(names@).take(i as int).to_multiset(),
            decreases names.len() - i,
        {
            let name = names[i].clone();
            assert(string_views(names@)[i as int] == name@);
            if name.as_str().is_empty() {
                return Err(Failure::Validation(ValidationError::NoLeadingChar));
            }
            let first_char = name.as_str().get_char(0);
            let path = join_path(root, name.as_str());
            let mut pos: usize = 0;
            while pos < paths.len() && str_le(paths[pos].name.as_str(), name.as_str())
                invariant
                    pos <= paths.len(),
                    forall|k: int|
                        0 <= k < pos ==> lex_le(#[trigger] names_of(paths@)[k], name@),
                decreases paths.len() - pos,
            {
                pos += 1;
            }
            let ghost before = paths@;
            let entry = PathChar { path, name, first_char };
            paths.insert(pos, entry);
            proof {
                assert(names_of(paths@) =~= names_of(before).insert(pos as int, entry.name@));
                lemma_insert_sorted(names_of(before), pos as int, entry.name@);
                vstd::seq_lib::to_multiset_insert(names_of(before), pos as int, entry.name@);
                let all = string_views(names@);
                assert(all.take(i + 1) =~= all.take(i as int).push(entry.name@));
                vstd::seq_lib::to_multiset_build(all.take(i as int), entry.name@);
            }
            i += 1;
        }
        proof {
            let all = string_views(names@);
            assert(all.take(i as int) =~= all);
            lemma_lex_sort(all, names_of(paths@));
            assert forall|k: int| 0 <= k < all.len() implies (#[trigger] all[k]).len() > 0 by {
                assert(all[k] == names@[k]@);
            }
        }
        let index = if paths.len() == 0 {
            None
        } else {
            Some(paths.len() - 1)
        };
        Ok(Recipes { root: String::from_str(root), paths, index })
    }

    /// The folder that holds the recipes.
    pub fn root(&self) -> (r: &String)
        ensures
            r@ == self@.root,
    {
        &self.root
    }

    /// Number of recipes.
    pub fn len(&self) -> (r: usize)
        ensures
            r == self@.len(),
    {
        self.paths.len()
    }

    /// Position of the selected recipe.
    pub fn index(&self) -> (r: Option<usize>)
        ensures
            match r {
                Some(i) => self@.index == Some(i as int),
                None => self@.index is None,
            },
            self@.wf(),
    {
        proof {
            use_type_invariant(self);
        }
        self.index
    }

    /// Storage location of the selected recipe.
    pub fn get_path(&self) -> (r: Option<&String>)
        ensures
            match r {
                Some(path) => self@.current_path() == Some(path@),
                None => self@.current_path() is None,
            },
    {
        proof {
            use_type_invariant(self);
        }
        match self.index {
            Some(i) => Some(&self.paths[i].path),
            None => None,
        }
    }

    /// Name of the selected recipe.
    pub fn get_name(&self) -> (r: Option<&String>)
        ensures
            match r {
                Some(name) => self@.current_name() == Some(name@),
                None => self@.current_name() is None,
            },
    {
        proof {
            use_type_invariant(self);
        }
        match self.index {
            Some(i) => Some(&self.paths[i].name),
            None => None,
        }
    }

    /// Storage location of a recipe called `name` in this repository.
    pub fn path_of(&self, name: &str) -> (path: String)
        ensures
            path@ == join(self@.root, name@),
    {
        join_path(self.root.as_str(), name)
    }

    /// Whether a recipe called `name` exists.
    pub fn contains(&self, name: &str) -> (r: bool)
        ensures
            r == self@.contains(name@),
    {
        let mut i: usize = 0;
        while i < self.paths.len()
            invariant
                i <= self.paths.len(),
                forall|k: int| 0 <= k < i ==> names_of(self.paths@)[k] != name@,
            decreases self.paths.len() - i,
        {
            if str_eq(self.paths[i].name.as_str(), name) {
                assert(names_of(self.paths@)[i as int] == name@);
                return true;
            }
            i += 1;
        }
        false
    }

    /// Selects the next recipe; after the last comes the first.
    pub fn increment(&mut self)
        ensures
            final(self)@ == old(self)@.increment(),
            final(self)@.wf(),
    {
        proof {
            use_type_invariant(&*self);
        }
        self.index = self.next_index(self.index, true);
    }

    /// Selects the previous recipe; before the first comes the last.
    pub fn decrement(&mut self)
        ensures
            final(self)@ == old(self)@.decrement(),
            final(self)@.wf(),
    {
        proof {
            use_type_invariant(&*self);
        }
        self.index = self.next_index(self.index, false);
    }

    /// Selects the nearest following recipe whose name starts with
    /// another character; nothing happens where all names start alike.
    pub fn increment_skip(&mut self)
        ensures
            final(self)@ == old(self)@.increment_skip(),
            final(self)@.wf(),
    {
        proof {
            use_type_invariant(&*self);
        }
        self.index = self.skip_detail(self.index, true);
    }

    /// Steps back once, skips backwards from there to another first
    /// character, and steps forward once.
    pub fn decrement_skip(&mut self)
        ensures
            final(self)@ == old(self)@.decrement_skip(),
            final(self)@.wf(),
    {
        proof {
            use_type_invariant(&*self);
        }
        let back = self.next_index(self.index, false);
        let skipped = self.skip_detail(back, false);
        self.index = self.next_index(skipped, true);
    }

    /// The storage operation that deletes the selected recipe, if one is
    /// selected. The repository itself stays as it is until it is built
    /// anew from the folder.
    pub fn delete(&self) -> (r: Option<Request>)
        ensures
            crate::io::request_view(r) == self@.delete(),
    {
        match self.get_path() {
            Some(path) => Some(Request::Remove { path: path.clone() }),
            None => None,
        }
    }

    /// The storage operation that moves the selected recipe to `to`, if
    /// one is selected. Moving a recipe to where it lies is refused.
    /// The repository itself stays as it is until it is built anew from
    /// the folder.
    pub fn rename(&self, to: &str) -> (r: Result<Option<Request>, Failure>)
        ensures
            match r {
                Ok(request) => self@.rename(to@) == Ok::<Option<RequestView>, Failure>(
                    crate::io::request_view(request),
                ),
                Err(e) => self@.rename(to@) == Err::<Option<RequestView>, Failure>(e),
            },
    {
        match self.get_path() {
            Some(from) => {
                if str_eq(from.as_str(), to) {
                    Err(Failure::Validation(ValidationError::RenameNotNeeded))
                } else {
                    Ok(Some(Request::Rename { from: from.clone(), to: String::from_str(to) }))
                }
            },
            None => Ok(None),
        }
    }

    /// What the repository shows of itself.
    pub fn display_string(&self) -> (text: String)
        ensures
            text@ == self@.display(),
    {
        proof {
            use_type_invariant(self);
        }
        match self.index {
            Some(i) => {
                assert(i < self.paths.len());
                let mut text = String::from_str("◀ ");
                text.append(self.paths[i].name.as_str());
                text.append(" [");
                text.append(decimal_string(i + 1).as_str());
                text.append("/");
                text.append(decimal_string(self.paths.len()).as_str());
                text.append("] ▶");
                text
            },
            None => String::from_str("no recipes found"),
        }
    }

    /// The selection `index` of this repository moved by one plain step.
    fn next_index(&self, index: Option<usize>, forward: bool) -> (r: Option<usize>)
        requires
            index matches Some(i) ==> i < self.paths.len(),
        ensures
            r matches Some(i) ==> i < self.paths.len(),
            (r is None) == (index is None),
            self.at(r) == self.at(index).step(forward),
    {
        match index {
            Some(i) => {
                if forward {
                    Some(if i + 1 == self.paths.len() { 0 } else { i + 1 })
                } else {
                    Some(if i == 0 { self.paths.len() - 1 } else { i - 1 })
                }
            },
            None => None,
        }
    }

    /// The selection `index` of this repository moved by a skip.
    fn skip_detail(&self, index: Option<usize>, forward: bool) -> (r: Option<usize>)
        requires
            index matches Some(i) ==> i < self.paths.len(),
        ensures
            r matches Some(i) ==> i < self.paths.len(),
            (r is None) == (index is None),
            self.at(r) == self.at(index).skip(forward),
    {
        proof {
            use_type_invariant(self);
        }
        if self.ignore_skip() {
            return index;
        }
        match index {
            Some(start) => {
                let sample = self.paths[start].first_char;
                let mut current: usize = start;
                let mut fuel: usize = self.paths.len();
                while fuel > 0 && self.paths[current].first_char == sample
                    invariant
                        current < self.paths.len(),
                        entries_ok(self.root@, self.paths@),
                        self.at(Some(start)).run(sample, forward, self.paths.len() as nat)
                            == self.at(Some(current)).run(sample, forward, fuel as nat),
                        self.at(Some(current)).first_char(current as int)
                            == self.paths@[current as int].first_char,
                    decreases fuel,
                {
                    let next = self.next_index(Some(current), forward);
                    assert(self.at(next).first_char(next.unwrap() as int)
                        == self.paths@[next.unwrap() as int].first_char);
                    current = next.unwrap();
                    fuel -= 1;
                }
                Some(current)
            },
            None => None,
        }
    }

    /// The model of this repository with the selection at `index`.
    spec fn at(self, index: Option<usize>) -> RecipesView {
        RecipesView {
            index: match index {
                Some(i) => Some(i as int),
                None => None,
            },
            ..self@
        }
    }

    /// Whether all names start with the same character.
    fn ignore_skip(&self) -> (r: bool)
        ensures
            r == self@.homogeneous(),
    {
        proof {
            use_type_invariant(self);
        }
        let mut i: usize = 1;
        while i < self.paths.len()
            invariant
                1 <= i,
                entries_ok(self.root@, self.paths@),
                forall|k: int|
                    0 <= k < i && k < self.paths.len() ==> (#[trigger] self@.names[k])[0]
                        == self@.names[0][0],
            decreases self.paths.len() - i,
        {
            assert(self@.names[i as int] == self.paths@[i as int].name@);
            assert(self@.names[0] == self.paths@[0].name@);
            if self.paths[i].first_char != self.paths[0].first_char {
                return false;
            }
            i += 1;
        }
        true
    }
}

/// Plain navigation wraps around: the step after the last recipe
/// selects the first, the step before the first selects the last, and
/// a step forward and a step back undo each other.
pub proof fn lemma_navigation_wraps(r: RecipesView)
    requires
        r.wf(),
        r.index is Some,
    ensures
        r.increment().index == Some((r.index->0 + 1) % (r.len() as int)),
        r.decrement().index == Some((r.index->0 + r.len() - 1) % (r.len() as int)),
        r.increment().decrement() == r,
        r.decrement().increment() == r,
        r.increment().wf(),
        r.decrement().wf(),
{
    let i = r.index->0;
    let n = r.len() as int;
    if i + 1 == n {
        vstd::arithmetic::div_mod::lemma_mod_self_0(n);
    } else {
        vstd::arithmetic::div_mod::lemma_small_mod((i + 1) as nat, n as nat);
    }
    if i == 0 {
        vstd::arithmetic::div_mod::lemma_small_mod((n - 1) as nat, n as nat);
    } else {
        vstd::arithmetic::div_mod::lemma_mod_add_multiples_vanish(i - 1, n);
        vstd::arithmetic::div_mod::lemma_small_mod((i - 1) as nat, n as nat);
    }
}

/// Where all names start with the same character, skipping in either
/// direction leaves the selection where it is.
pub proof fn lemma_skip_homogeneous(r: RecipesView)
    requires
        r.wf(),
        r.homogeneous(),
    ensures
        r.increment_skip() == r,
        r.decrement_skip() == r,
{
    if r.index is Some {
        lemma_navigation_wraps(r);
    }
}

/// Steps from position `d` of the walk that starts at `i`: the run ends
/// at the first position of the walk, from `d` on, whose name does not
/// start with `sample`, given that there is one at `e`.
proof fn lemma_run(r: RecipesView, i: int, sample: char, forward: bool, d: int, e: int) -> (k: int)
    requires
        0 <= i < r.names.len(),
        0 <= d <= e < r.names.len(),
        r.first_char(r.walk(i, e, forward)) != sample,
    ensures
        d <= k <= e,
        r.select(r.walk(i, d, forward)).run(sample, forward, (r.names.len() - d) as nat)
            == r.select(r.walk(i, k, forward)),
        r.first_char(r.walk(i, k, forward)) != sample,
        forall|j: int| d <= j < k ==> r.first_char(#[trigger] r.walk(i, j, forward)) == sample,
    decreases e - d,
{
    let here = r.select(r.walk(i, d, forward));
    if r.first_char(r.walk(i, d, forward)) != sample {
        d
    } else {
        assert(here.step(forward) == r.select(r.walk(i, d + 1, forward)));
        let k = lemma_run(r, i, sample, forward, d + 1, e);
        assert forall|j: int| d <= j < k implies r.first_char(#[trigger] r.walk(i, j, forward))
            == sample by {
            if j > d {
                assert(d + 1 <= j);
            }
        }
        k
    }
}

/// Where the names do not all start alike, a skip selects the nearest
/// recipe in its direction whose name starts with another character
/// than the selected one: every recipe passed on the way starts with
/// the same character, and the one reached does not.
pub proof fn lemma_skip_reaches_next_group(r: RecipesView, forward: bool) -> (k: int)
    requires
        r.wf(),
        r.index is Some,
        !r.homogeneous(),
    ensures
        1 <= k < r.len(),
        r.skip(forward) == r.select(r.walk(r.index->0, k, forward)),
        r.first_char(r.walk(r.index->0, k, forward)) != r.first_char(r.index->0),
        forall|j: int|
            0 <= j < k ==> r.first_char(#[trigger] r.walk(r.index->0, j, forward)) == r.first_char(
                r.index->0,
            ),
{
    let i = r.index->0;
    let n = r.len() as int;
    let sample = r.first_char(i);
    let other = choose|w: int| 0 <= w < r.names.len() && (#[trigger] r.names[w])[0] != r.names[0][0];
    let w = if r.first_char(0) != sample {
        0
    } else {
        other
    };
    assert(0 <= w < n && r.first_char(w) != sample);
    let e = if forward {
        if w >= i {
            w - i
        } else {
            w - i + n
        }
    } else {
        if w <= i {
            i - w
        } else {
            i - w + n
        }
    };
    assert(r.walk(i, e, forward) == w);
    assert(r.walk(i, 0, forward) == i);
    assert(r.select(i) == r);
    let k = lemma_run(r, i, sample, forward, 0, e);
    k
}

/// Moving the selected recipe to where it lies is refused, whatever
/// else the repository holds; moving it elsewhere is asked of the
/// storage. Neither changes the repository.
pub proof fn lemma_rename_own_path(r: RecipesView, to: Seq<char>)
    requires
        r.wf(),
        r.index is Some,
    ensures
        r.rename(r.current_path()->0) == Err::<Option<RequestView>, Failure>(
            Failure::Validation(ValidationError::RenameNotNeeded),
        ),
        to != r.current_path()->0 ==> r.rename(to) == Ok::<Option<RequestView>, Failure>(
            Some(RequestView::Rename { from: r.current_path()->0, to }),
        ),
{
}

/// A run of plain steps keeps the repository well formed and moves
/// nothing but the selection.
proof fn lemma_run_keeps_wf(r: RecipesView, sample: char, forward: bool, fuel: nat)
    requires
        r.wf(),
    ensures
        r.run(sample, forward, fuel).wf(),
        r.run(sample, forward, fuel).names == r.names,
        r.run(sample, forward, fuel).root == r.root,
    decreases fuel,
{
    if r.index is Some && fuel > 0 && r.first_char(r.index->0) == sample {
        lemma_run_keeps_wf(r.step(forward), sample, forward, (fuel - 1) as nat);
    }
}

/// Navigation of any kind keeps the repository well formed and moves
/// nothing but the selection: the folder and the names stay.
pub proof fn lemma_navigation_keeps_wf(r: RecipesView)
    requires
        r.wf(),
    ensures
        r.increment().wf() && r.increment().names == r.names && r.increment().root == r.root,
        r.decrement().wf() && r.decrement().names == r.names && r.decrement().root == r.root,
        r.increment_skip().wf() && r.increment_skip().names == r.names && r.increment_skip().root
            == r.root,
        r.decrement_skip().wf() && r.decrement_skip().names == r.names && r.decrement_skip().root
            == r.root,
{
    if r.index is Some {
        let i = r.index->0;
        lemma_run_keeps_wf(r, r.first_char(i), true, r.len());
        let back = r.decrement();
        lemma_run_keeps_wf(back, back.first_char(back.index->0), false, back.len());
    }
}

/// A repository that was read from a folder is well formed: it holds
/// the names that were found, in order, with the last one selected.
pub proof fn lemma_load_wf(root: Seq<char>, names: Seq<Seq<char>>)
    ensures
        RecipesView::load(root, names) matches Ok(r) ==> {
            &&& r.wf()
            &&& r.root == root
            &&& r.names.to_multiset() == names.to_multiset()
            &&& r.len() == names.len()
            &&& r.index == (if names.len() == 0 {
                None
            } else {
                Some(names.len() - 1)
            })
        },
        RecipesView::load(root, names) is Err <==> exists|i: int|
            0 <= i < names.len() && (#[trigger] names[i]).len() == 0,
{
    if RecipesView::load(root, names) is Ok {
        let sorted = lex_sort(names);
        lemma_lex_sort(names, sorted);
        vstd::seq_lib::to_multiset_len(sorted);
        vstd::seq_lib::to_multiset_len(names);
        assert forall|i: int| 0 <= i < sorted.len() implies (#[trigger] sorted[i]).len() > 0 by {
            assert(sorted.contains(sorted[i]));
            let j = choose|j: int| 0 <= j < names.len() && names[j] == sorted[i];
            assert(names[j].len() > 0);
        }
    }
}

} // verus!
