//! What a presenter draws for a playback session.
//!
//! The components of the current step are handed out in draw order: scenery
//! first, then sprites, then screen effects, then text. Within one layer the
//! authored order is kept.

use crate::engine::{ControllerState, ControllerStateView, NarrativeState, NarrativeStateView};
use crate::error::{result_view, ContentError, ContentErrorView};
use crate::model::{
    Choice, ChoiceView, StoryComponent, StoryComponentView, LAYER_EFFECT, LAYER_SCENERY,
    LAYER_SPRITE, LAYER_TEXT,
};
use crate::store::{StoreView, StoryStore};
use vstd::prelude::*;
use vstd::seq_lib::{lemma_multiset_commutative, to_multiset_build};

verus! {

/// A component to draw and the layer on which it is drawn.
#[derive(Debug, PartialEq, Eq, Clone, Copy)]
pub struct DrawItem<'a> {
    pub component: &'a StoryComponent,
    pub z_order: u8,
}

/// A draw item with its component as a value.
pub struct DrawItemView {
    pub component: StoryComponentView,
    pub z_order: u8,
}

impl<'a> View for DrawItem<'a> {
    type V = DrawItemView;

    open spec fn view(&self) -> DrawItemView {
        DrawItemView { component: self.component@, z_order: self.z_order }
    }
}

impl<'a> DeepView for DrawItem<'a> {
    type V = DrawItemView;

    open spec fn deep_view(&self) -> DrawItemView {
        self@
    }
}

/// The test whether a component is drawn on the layer `z`.
pub open spec fn stands_on(z: u8) -> spec_fn(StoryComponentView) -> bool {
    |component: StoryComponentView| component.layer() == z
}

/// A component as an item of the layer `z`.
pub open spec fn item_on(z: u8) -> spec_fn(StoryComponentView) -> DrawItemView {
    |component: StoryComponentView| DrawItemView { component, z_order: z }
}

/// The components that are drawn on the layer `z`, in their order.
pub open spec fn layer_items(components: Seq<StoryComponentView>, z: u8) -> Seq<DrawItemView> {
    components.filter(stands_on(z)).map_values(item_on(z))
}

/// The draw order of components that share a step: layer by layer from the
/// bottom, and within a layer as they were authored.
pub open spec fn draw_list(components: Seq<StoryComponentView>) -> Seq<DrawItemView> {
    layer_items(components, LAYER_SCENERY) + layer_items(components, LAYER_SPRITE) + layer_items(
        components,
        LAYER_EFFECT,
    ) + layer_items(components, LAYER_TEXT)
}

/// What is visible in `state`: the components at the current step of the
/// current story, in draw order.
pub open spec fn visible(store: StoreView, state: NarrativeStateView) -> Result<
    Seq<DrawItemView>,
    ContentErrorView,
> {
    match store.components_at(state.current_story, state.current_step) {
        Ok(components) => Ok(draw_list(components)),
        Err(fault) => Err(fault),
    }
}

/// The choices that are offered in `state`: those awaited, none in any other
/// state.
pub open spec fn offered(state: NarrativeStateView) -> Seq<ChoiceView> {
    match state.controller_state {
        ControllerStateView::AwaitingBranch(choices) => choices,
        _ => Seq::empty(),
    }
}

/// Every item of a layer is drawn on that layer and stands for a component
/// that belongs there.
pub proof fn lemma_layer_items(components: Seq<StoryComponentView>, z: u8, i: int)
    requires
        0 <= i < layer_items(components, z).len(),
    ensures
        layer_items(components, z)[i].z_order == z,
        layer_items(components, z)[i].component.layer() == z,
{
    components.lemma_filter_pred(stands_on(z), i);
}

/// The draw order goes up through the layers, and every item is drawn on the
/// layer of its component.
pub proof fn lemma_draw_list_ascends(components: Seq<StoryComponentView>, i: int, j: int)
    requires
        0 <= i <= j < draw_list(components).len(),
    ensures
        draw_list(components)[i].z_order <= draw_list(components)[j].z_order,
        draw_list(components)[i].z_order == draw_list(components)[i].component.layer(),
{
    lemma_position(components, i);
    lemma_position(components, j);
}

/// The item at one place of the draw list is an item of the layer in whose
/// stretch the place lies.
proof fn lemma_position(components: Seq<StoryComponentView>, i: int)
    requires
        0 <= i < draw_list(components).len(),
    ensures
        draw_list(components)[i].z_order == draw_list(components)[i].component.layer(),
        ({
            let a = layer_items(components, LAYER_SCENERY).len();
            let b = a + layer_items(components, LAYER_SPRITE).len();
            let c = b + layer_items(components, LAYER_EFFECT).len();
            draw_list(components)[i].z_order == if i < a {
                LAYER_SCENERY
            } else if i < b {
                LAYER_SPRITE
            } else if i < c {
                LAYER_EFFECT
            } else {
                LAYER_TEXT
            }
        }),
{
    let scenery = layer_items(components, LAYER_SCENERY);
    let sprites = layer_items(components, LAYER_SPRITE);
    let effects = layer_items(components, LAYER_EFFECT);
    let a = scenery.len() as int;
    let b = a + sprites.len();
    let c = b + effects.len();
    if i < a {
        lemma_layer_items(components, LAYER_SCENERY, i);
    } else if i < b {
        lemma_layer_items(components, LAYER_SPRITE, i - a);
    } else if i < c {
        lemma_layer_items(components, LAYER_EFFECT, i - b);
    } else {
        lemma_layer_items(components, LAYER_TEXT, i - c);
    }
}

/// The components for which the items of a draw list stand, in draw order.
pub open spec fn components_of(items: Seq<DrawItemView>) -> Seq<StoryComponentView> {
    items.map_values(|item: DrawItemView| item.component)
}

/// An element that is put between two sequences is one more element of
/// their concatenation.
proof fn lemma_put_between<A>(left: Seq<A>, right: Seq<A>, x: A)
    ensures
        (left.push(x) + right).to_multiset() == (left + right).to_multiset().insert(x),
{
    broadcast use vstd::multiset::group_multiset_axioms;

    lemma_multiset_commutative(left.push(x), right);
    lemma_multiset_commutative(left, right);
    to_multiset_build(left, x);
}

/// The layers, one after the other, hold every component as often as the
/// sequence they are taken from.
proof fn lemma_layers_rearrange(components: Seq<StoryComponentView>)
    ensures
        (components.filter(stands_on(LAYER_SCENERY)) + components.filter(stands_on(LAYER_SPRITE))
            + components.filter(stands_on(LAYER_EFFECT)) + components.filter(
            stands_on(LAYER_TEXT),
        )).to_multiset() == components.to_multiset(),
    decreases components.len(),
{
    reveal(Seq::filter);
    let scenery = components.filter(stands_on(LAYER_SCENERY));
    let sprites = components.filter(stands_on(LAYER_SPRITE));
    let effects = components.filter(stands_on(LAYER_EFFECT));
    let texts = components.filter(stands_on(LAYER_TEXT));
    if components.len() > 0 {
        let front = components.drop_last();
        let last = components.last();
        lemma_layers_rearrange(front);
        let a = front.filter(stands_on(LAYER_SCENERY));
        let b = front.filter(stands_on(LAYER_SPRITE));
        let c = front.filter(stands_on(LAYER_EFFECT));
        let d = front.filter(stands_on(LAYER_TEXT));
        assert(components =~= front.push(last));
        to_multiset_build(front, last);
        let empty = Seq::<StoryComponentView>::empty();
        if last.layer() == LAYER_SCENERY {
            lemma_put_between(a, b + c + d, last);
            assert(scenery + sprites + effects + texts =~= a.push(last) + (b + c + d));
            assert(a + b + c + d =~= a + (b + c + d));
        } else if last.layer() == LAYER_SPRITE {
            lemma_put_between(a + b, c + d, last);
            assert(scenery + sprites + effects + texts =~= (a + b).push(last) + (c + d));
            assert(a + b + c + d =~= (a + b) + (c + d));
        } else if last.layer() == LAYER_EFFECT {
            lemma_put_between(a + b + c, d, last);
        } else {
            lemma_put_between(a + b + c + d, empty, last);
        }
    }
}

/// The draw list holds every component of the step as often as the step
/// holds it: none is left out, none is added and none is drawn twice.
pub proof fn lemma_draw_list_rearranges(components: Seq<StoryComponentView>)
    ensures
        components_of(draw_list(components)).to_multiset() == components.to_multiset(),
{
    let scenery = components.filter(stands_on(LAYER_SCENERY));
    let sprites = components.filter(stands_on(LAYER_SPRITE));
    let effects = components.filter(stands_on(LAYER_EFFECT));
    let texts = components.filter(stands_on(LAYER_TEXT));
    assert(components_of(draw_list(components)) =~= scenery + sprites + effects + texts);
    lemma_layers_rearrange(components);
}

/// Appends the components that are drawn on the layer `z`, in their order.
fn push_layer<'a>(out: &mut Vec<DrawItem<'a>>, components: &Vec<&'a StoryComponent>, z: u8)
    ensures
        final(out).deep_view() == old(out).deep_view() + layer_items(components.deep_view(), z),
{
    let ghost before = out.deep_view();
    let ghost all = components.deep_view();
    let n = components.len();
    let mut i: usize = 0;
    while i < n
        invariant
            i <= n,
            n == components.len(),
            all == components.deep_view(),
            out.deep_view() == before + layer_items(all.take(i as int), z),
        decreases n - i,
    {
        let ghost prior = out.deep_view();
        let component: &'a StoryComponent = components[i];
        if component.layer() == z {
            out.push(DrawItem { component, z_order: z });
            assert(out.deep_view() =~= prior.push(item_on(z)(all[i as int])));
        }
        proof {
            reveal(Seq::filter);
            let shorter = all.take(i as int);
            let longer = all.take(i + 1);
            assert(longer.drop_last() =~= shorter);
        }
        i += 1;
    }
    proof {
        assert(all.take(n as int) =~= all);
    }
}

/// The components to draw for `state`, in draw order, each with the layer on
/// which it is drawn. An unknown current story is a fault.
pub fn visible_content<'a>(state: &NarrativeState, store: &'a StoryStore) -> (r: Result<
    Vec<DrawItem<'a>>,
    ContentError,
>)
    ensures
        result_view(r) == visible(store@, state@),
{
    let components = match store.components_at(state.current_story.as_str(), state.current_step) {
        Ok(components) => components,
        Err(fault) => {
            return Err(fault);
        },
    };
    let mut out: Vec<DrawItem<'a>> = Vec::new();
    push_layer(&mut out, &components, LAYER_SCENERY);
    push_layer(&mut out, &components, LAYER_SPRITE);
    push_layer(&mut out, &components, LAYER_EFFECT);
    push_layer(&mut out, &components, LAYER_TEXT);
    Ok(out)
}

/// The choices among which the player is asked to pick, in their order.
/// Empty unless a choice is awaited.
pub fn active_choices(state: &NarrativeState) -> (out: Vec<&Choice>)
    ensures
        out.deep_view() == offered(state@),
{
    let mut out: Vec<&Choice> = Vec::new();
    match &state.controller_state {
        ControllerState::AwaitingBranch(choices) => {
            let n = choices.len();
            let mut i: usize = 0;
            while i < n
                invariant
                    i <= n,
                    n == choices.len(),
                    out.deep_view() == choices.deep_view().take(i as int),
                decreases n - i,
            {
                let ghost prior = out.deep_view();
                out.push(&choices[i]);
                proof {
                    assert(out.deep_view() =~= prior.push(choices@[i as int]@));
                }
                i += 1;
            }
        },
        _ => {},
    }
    out
}

} // verus!
