//! One story: an identifier and the content that stands at each step.
//!
//! The content of a story is a mapping from a key, made of an optional
//! controller and a step, to an ordered sequence of components. A story holds
//! it as a list of entries in which no key occurs twice and no step bears two
//! controllers.

use crate::error::{ContentError, ContentErrorView};
use crate::model::{StoryComponent, StoryComponentView, StoryController, StoryControllerView};
use vstd::prelude::*;

verus! {

/// The content under one key of a story.
#[derive(Debug, PartialEq, Eq, Clone)]
pub struct StoryEntry {
    pub controller: Option<StoryController>,
    pub step: usize,
    pub components: Vec<StoryComponent>,
}

/// An entry with its controller and its components as values.
pub struct StoryEntryView {
    pub controller: Option<StoryControllerView>,
    pub step: nat,
    pub components: Seq<StoryComponentView>,
}

impl View for StoryEntry {
    type V = StoryEntryView;

    open spec fn view(&self) -> StoryEntryView {
        StoryEntryView {
            controller: self.controller.deep_view(),
            step: self.step as nat,
            components: self.components.deep_view(),
        }
    }
}

impl DeepView for StoryEntry {
    type V = StoryEntryView;

    open spec fn deep_view(&self) -> StoryEntryView {
        self@
    }
}

/// A key of the content mapping: an optional controller and a step.
pub type StoryKey = (Option<StoryControllerView>, nat);

/// The content mapping of a story.
pub type StoryContent = Map<StoryKey, Seq<StoryComponentView>>;

impl StoryEntryView {
    /// The key under which the entry stands.
    pub open spec fn key(self) -> StoryKey {
        (self.controller, self.step)
    }

    /// Two entries clash when they stand at the same step and both bear a
    /// controller, or neither does. Entries with equal keys clash.
    pub open spec fn clashes_with(self, other: StoryEntryView) -> bool {
        self.step == other.step && (self.controller is Some) == (other.controller is Some)
    }
}

/// Entry `j` clashes with an entry that stands before it.
pub open spec fn clashes_before(entries: Seq<StoryEntryView>, j: int) -> bool {
    exists|i: int| 0 <= i < j && #[trigger] entries[i].clashes_with(entries[j])
}

/// No two entries clash: every key occurs once and every step bears at most
/// one controller.
pub open spec fn consistent(entries: Seq<StoryEntryView>) -> bool {
    forall|j: int| 0 <= j < entries.len() ==> !clashes_before(entries, j)
}

/// Entry `j` is the first that clashes with an entry before it.
pub open spec fn first_clash(entries: Seq<StoryEntryView>, j: int) -> bool {
    &&& 0 <= j < entries.len()
    &&& clashes_before(entries, j)
    &&& forall|k: int| 0 <= k < j ==> !clashes_before(entries, k)
}

/// The fault that a clashing entry of the story `id` stands for.
pub open spec fn clash_error(id: Seq<char>, entry: StoryEntryView) -> ContentErrorView {
    if entry.controller is Some {
        ContentErrorView::ControllerCollision { story: id, step: entry.step }
    } else {
        ContentErrorView::DuplicateStep { story: id, step: entry.step }
    }
}

/// Entry `i` stands under `key`.
pub open spec fn holds_key(entries: Seq<StoryEntryView>, i: int, key: StoryKey) -> bool {
    0 <= i < entries.len() && entries[i].key() == key
}

/// The mapping that a list of entries stands for.
pub open spec fn content_of(entries: Seq<StoryEntryView>) -> StoryContent {
    Map::new(
        |key: StoryKey| exists|i: int| holds_key(entries, i, key),
        |key: StoryKey| entries[choose|i: int| holds_key(entries, i, key)].components,
    )
}

/// In a consistent list every entry is found again under its key.
pub proof fn lemma_content_of_entry(entries: Seq<StoryEntryView>, i: int)
    requires
        consistent(entries),
        0 <= i < entries.len(),
    ensures
        content_of(entries).dom().contains(entries[i].key()),
        content_of(entries)[entries[i].key()] == entries[i].components,
{
    let key = entries[i].key();
    assert(holds_key(entries, i, key));
    let k = choose|k: int| holds_key(entries, k, key);
    if k < i {
        assert(entries[k].clashes_with(entries[i]));
        assert(clashes_before(entries, i));
    } else if i < k {
        assert(entries[i].clashes_with(entries[k]));
        assert(clashes_before(entries, k));
    }
}

/// In a consistent list two entries at one step differ in whether they bear
/// a controller.
pub proof fn lemma_consistent_pair(entries: Seq<StoryEntryView>, i: int, j: int)
    requires
        consistent(entries),
        0 <= i < entries.len(),
        0 <= j < entries.len(),
        i != j,
    ensures
        !entries[i].clashes_with(entries[j]),
{
    if i < j {
        if entries[i].clashes_with(entries[j]) {
            assert(clashes_before(entries, j));
        }
    } else {
        if entries[j].clashes_with(entries[i]) {
            assert(clashes_before(entries, i));
        }
    }
}

/// The content that a list of entries stands for does not depend on the
/// order of the entries: two consistent lists that hold the same entries
/// stand for the same keys, and under each key for the same sequence of
/// components.
pub proof fn lemma_content_ignores_order(a: Seq<StoryEntryView>, b: Seq<StoryEntryView>)
    requires
        consistent(a),
        consistent(b),
        forall|i: int| 0 <= i < a.len() ==> b.contains(#[trigger] a[i]),
        forall|j: int| 0 <= j < b.len() ==> a.contains(#[trigger] b[j]),
    ensures
        content_of(a) == content_of(b),
{
    let left = content_of(a);
    let right = content_of(b);
    assert forall|key: StoryKey| #[trigger] left.dom().contains(key) implies right.dom().contains(
        key,
    ) && left[key] == right[key] by {
        let i = choose|i: int| holds_key(a, i, key);
        let j = choose|j: int| 0 <= j < b.len() && b[j] == a[i];
        lemma_content_of_entry(a, i);
        lemma_content_of_entry(b, j);
    }
    assert forall|key: StoryKey| #[trigger] right.dom().contains(key) implies left.dom().contains(
        key,
    ) by {
        let j = choose|j: int| holds_key(b, j, key);
        let i = choose|i: int| 0 <= i < a.len() && a[i] == b[j];
        assert(holds_key(a, i, key));
    }
}

/// In the content of a consistent list no step bears two controllers.
pub proof fn lemma_content_wf(id: Seq<char>, entries: Seq<StoryEntryView>)
    requires
        consistent(entries),
    ensures
        (StoryView { id, content: content_of(entries) }).wf(),
{
    let content = content_of(entries);
    assert forall|a: StoryControllerView, b: StoryControllerView, step: nat|
        content.dom().contains((Some(a), step)) && content.dom().contains(
            (Some(b), step),
        ) implies a == b by {
        let i = choose|i: int| holds_key(entries, i, (Some(a), step));
        let j = choose|j: int| holds_key(entries, j, (Some(b), step));
        if i != j {
            lemma_consistent_pair(entries, i, j);
        }
    }
}

/// A story as a value: its identifier and its content mapping.
pub struct StoryView {
    pub id: Seq<char>,
    pub content: StoryContent,
}

impl StoryView {
    /// No step bears two controllers.
    pub open spec fn wf(self) -> bool {
        forall|a: StoryControllerView, b: StoryControllerView, step: nat|
            #![trigger self.has_controller(step, a), self.has_controller(step, b)]
            self.has_controller(step, a) && self.has_controller(step, b) ==> a == b
    }

    /// `controller` stands at `step`.
    pub open spec fn has_controller(self, step: nat, controller: StoryControllerView) -> bool {
        self.content.dom().contains((Some(controller), step))
    }

    /// The controller that stands at `step`, if there is one.
    pub open spec fn controller_at(self, step: nat) -> Option<StoryControllerView> {
        if exists|c: StoryControllerView| self.has_controller(step, c) {
            Some(choose|c: StoryControllerView| self.has_controller(step, c))
        } else {
            None
        }
    }

    /// What stands under `key`; nothing where the key is absent.
    pub open spec fn components_under(self, key: StoryKey) -> Seq<StoryComponentView> {
        if self.content.dom().contains(key) {
            self.content[key]
        } else {
            Seq::empty()
        }
    }

    /// The components at `step`, in authored order: those that stand there
    /// without a controller, then those that stand there with the step's
    /// controller.
    pub open spec fn components_at(self, step: nat) -> Seq<StoryComponentView> {
        self.components_under((None, step)) + match self.controller_at(step) {
            Some(c) => self.components_under((Some(c), step)),
            None => Seq::empty(),
        }
    }
}

/// In a story in which no step bears two controllers, a controller that
/// stands at a step is the controller of that step.
pub proof fn lemma_controller_at(story: StoryView, step: nat, controller: StoryControllerView)
    requires
        story.wf(),
        story.has_controller(step, controller),
    ensures
        story.controller_at(step) == Some(controller),
{
}

/// A story: its identifier and its content.
#[derive(Debug, PartialEq, Eq)]
pub struct Story {
    id: String,
    entries: Vec<StoryEntry>,
}

impl View for Story {
    type V = StoryView;

    closed spec fn view(&self) -> StoryView {
        StoryView { id: self.id@, content: content_of(self.entries.deep_view()) }
    }
}

impl DeepView for Story {
    type V = StoryView;

    open spec fn deep_view(&self) -> StoryView {
        self@
    }
}

impl Story {
    #[verifier::type_invariant]
    closed spec fn inv(self) -> bool {
        consistent(self.entries.deep_view())
    }

    /// The entries of the story, in the order in which they were given.
    pub closed spec fn entry_list(self) -> Seq<StoryEntryView> {
        self.entries.deep_view()
    }

    /// Builds a story from its entries. It is refused where two entries
    /// clash, and the fault names the step of the first entry that clashes
    /// with one before it.
    pub fn from_entries(id: String, entries: Vec<StoryEntry>) -> (r: Result<Story, ContentError>)
        ensures
            match r {
                Ok(story) => {
                    &&& consistent(entries.deep_view())
                    &&& story.entry_list() == entries.deep_view()
                    &&& story@.id == id@
                    &&& story@.content == content_of(entries.deep_view())
                    &&& story@.wf()
                },
                Err(e) => exists|j: int|
                    first_clash(entries.deep_view(), j) && e@ == clash_error(
                        id@,
                        #[trigger] entries.deep_view()[j],
                    ),
            },
    {
        let n = entries.len();
        let ghost list = entries.deep_view();
        let mut j: usize = 0;
        while j < n
            invariant
                j <= n,
                n == entries.len(),
                list == entries.deep_view(),
                forall|k: int| 0 <= k < j ==> !clashes_before(list, k),
            decreases n - j,
        {
            let mut i: usize = 0;
            while i < j
                invariant
                    i <= j,
                    j < n,
                    n == entries.len(),
                    list == entries.deep_view(),
                    forall|k: int| 0 <= k < j ==> !clashes_before(list, k),
                    forall|k: int|
                        0 <= k < i ==> !(#[trigger] list[k]).clashes_with(list[j as int]),
                decreases j - i,
            {
                if entries[i].step == entries[j].step && entries[i].controller.is_some()
                    == entries[j].controller.is_some() {
                    let step = entries[j].step;
                    let fault = if entries[j].controller.is_some() {
                        ContentError::ControllerCollision { story: id, step }
                    } else {
                        ContentError::DuplicateStep { story: id, step }
                    };
                    proof {
                        assert(list[i as int].clashes_with(list[j as int]));
                    }
                    return Err(fault);
                }
                i += 1;
            }
            j += 1;
        }
        proof {
            lemma_content_wf(id@, list);
        }
        Ok(Story { id, entries })
    }

    /// The identifier of the story.
    pub fn id(&self) -> (id: &str)
        ensures
            id@ == self@.id,
    {
        self.id.as_str()
    }

    /// Whether `id` is the identifier of the story.
    pub fn is_named(&self, id: &String) -> (named: bool)
        ensures
            named == (self@.id == id@),
    {
        self.id == *id
    }

    /// Gives the entries back. Building a story from them again gives the
    /// same content.
    pub fn into_entries(self) -> (entries: Vec<StoryEntry>)
        ensures
            entries.deep_view() == self.entry_list(),
            consistent(entries.deep_view()),
            content_of(entries.deep_view()) == self@.content,
    {
        proof {
            use_type_invariant(&self);
        }
        self.entries
    }

    /// Index of the entry at `step` that bears a controller
    /// (`with_controller`) or bears none.
    fn find_entry(&self, step: usize, with_controller: bool) -> (found: Option<usize>)
        ensures
            match found {
                Some(k) => {
                    &&& k < self.entries.len()
                    &&& self.entries[k as int].step == step
                    &&& self.entries[k as int].controller.is_some() == with_controller
                },
                None => forall|k: int|
                    0 <= k < self.entries.len() ==> !({
                        &&& (#[trigger] self.entries[k]).step == step
                        &&& self.entries[k].controller.is_some() == with_controller
                    }),
            },
    {
        let n = self.entries.len();
        let mut k: usize = 0;
        while k < n
            invariant
                k <= n,
                n == self.entries.len(),
                forall|m: int|
                    0 <= m < k ==> !({
                        &&& (#[trigger] self.entries[m]).step == step
                        &&& self.entries[m].controller.is_some() == with_controller
                    }),
            decreases n - k,
        {
            if self.entries[k].step == step && self.entries[k].controller.is_some()
                == with_controller {
                return Some(k);
            }
            k += 1;
        }
        None
    }

    /// The controller that stands at `step`, if there is one.
    pub fn controller_at(&self, step: usize) -> (found: Option<&StoryController>)
        ensures
            found.deep_view() == self@.controller_at(step as nat),
            self@.wf(),
    {
        proof {
            use_type_invariant(self);
            lemma_content_wf(self@.id, self.entries.deep_view());
        }
        let ghost list = self.entries.deep_view();
        match self.find_entry(step, true) {
            Some(k) => {
                let found = self.entries[k].controller.as_ref();
                proof {
                    let c = list[k as int].controller->0;
                    lemma_content_of_entry(list, k as int);
                    assert(self@.has_controller(step as nat, c));
                    let chosen = choose|c: StoryControllerView|
                        self@.has_controller(step as nat, c);
                    let m = choose|m: int| holds_key(list, m, (Some(chosen), step as nat));
                    if m != k {
                        lemma_consistent_pair(list, m, k as int);
                    }
                }
                found
            },
            None => None,
        }
    }

    /// The components at `step`, in authored order: those that stand there
    /// without a controller, then those that stand there with the step's
    /// controller. Empty where nothing stands at the step.
    pub fn components_at(&self, step: usize) -> (out: Vec<&StoryComponent>)
        ensures
            out.deep_view() == self@.components_at(step as nat),
            self@.wf(),
    {
        proof {
            use_type_invariant(self);
            lemma_content_wf(self@.id, self.entries.deep_view());
        }
        let ghost list = self.entries.deep_view();
        let mut out: Vec<&StoryComponent> = Vec::new();
        match self.find_entry(step, false) {
            Some(k) => {
                push_all(&mut out, &self.entries[k].components);
                proof {
                    lemma_content_of_entry(list, k as int);
                }
            },
            None => {},
        }
        match self.find_entry(step, true) {
            Some(k) => {
                push_all(&mut out, &self.entries[k].components);
                proof {
                    let c = list[k as int].controller->0;
                    lemma_content_of_entry(list, k as int);
                    assert(self@.has_controller(step as nat, c));
                    let chosen = choose|c: StoryControllerView|
                        self@.has_controller(step as nat, c);
                    let m = choose|m: int| holds_key(list, m, (Some(chosen), step as nat));
                    if m != k {
                        lemma_consistent_pair(list, m, k as int);
                    }
                }
            },
            None => {},
        }
        out
    }
}

/// A story that is taken apart into its entries and built again from them
/// is the same story: the same identifier, the same keys, and under each key
/// the same sequence of components.
pub proof fn lemma_rebuilt_story(story: Story, rebuilt: Story)
    requires
        rebuilt.entry_list() == story.entry_list(),
        rebuilt@.id == story@.id,
    ensures
        rebuilt@ == story@,
{
}

/// Appends a reference to each element of `from`, in order.
fn push_all<'a>(out: &mut Vec<&'a StoryComponent>, from: &'a Vec<StoryComponent>)
    ensures
        final(out).deep_view() == old(out).deep_view() + from.deep_view(),
{
    let ghost before = out.deep_view();
    let n = from.len();
    let mut i: usize = 0;
    while i < n
        invariant
            i <= n,
            n == from.len(),
            out.deep_view() == before + from.deep_view().take(i as int),
        decreases n - i,
    {
        let ghost prior = out.deep_view();
        out.push(&from[i]);
        proof {
            assert(out.deep_view() =~= prior.push(from@[i as int]@));
        }
        i += 1;
    }
}

} // verus!
