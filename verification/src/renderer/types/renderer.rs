//! The renderer: it remembers what the terminal shows and says what to
//! write to make it show the next scene.

use vstd::prelude::*;
use crate::renderer::changes::{
    changes, diff, differing_cells, lemma_one_write_per_differing_cell,
    lemma_same_frame_needs_no_write, CellWrite,
};
use crate::renderer::scene::{
    compose, lemma_out_of_sight_draws_nothing, painted, scene_of, Placed,
};
use crate::renderer::types::frame::Frame;
use crate::renderer::types::object::{Location, Representation};

verus! {

/// What a renderer knows, as a mathematical value.
pub struct RendererView {
    /// Number of columns of the terminal window.
    pub width: nat,
    /// Number of rows of the terminal window.
    pub height: nat,
    /// What the terminal shows: the last frame whose writes went through.
    pub shown: Seq<Seq<char>>,
    /// The frame whose writes were handed out and have not been settled yet.
    pub staged: Option<Seq<Seq<char>>>,
}

impl RendererView {
    /// A renderer for an empty terminal window of the given size.
    pub open spec fn fresh(width: nat, height: nat) -> RendererView {
        RendererView { width, height, shown: painted(Seq::empty(), width, height), staged: None }
    }

    /// The frame that shows `scene` in this window.
    pub open spec fn frame_of(self, scene: Seq<Placed>) -> Seq<Seq<char>> {
        painted(scene, self.width, self.height)
    }

    /// Rendering `scene`: the frame of the scene is staged, and the writes
    /// are those that lead from what the terminal shows to that frame.
    pub open spec fn render(self, scene: Seq<Placed>) -> (RendererView, Seq<CellWrite>) {
        (
            RendererView { staged: Some(self.frame_of(scene)), ..self },
            changes(self.shown, self.frame_of(scene), self.width, self.height),
        )
    }

    /// The writes went through: the terminal shows the staged frame.
    pub open spec fn commit(self) -> RendererView {
        match self.staged {
            Some(frame) => RendererView { shown: frame, staged: None, ..self },
            None => self,
        }
    }

    /// The writes failed: the terminal is taken to show what it did.
    pub open spec fn abandon(self) -> RendererView {
        RendererView { staged: None, ..self }
    }
}

/// Remembers the frame that the terminal shows, and computes the writes
/// that take it to the next one.
///
/// Rendering is done in two steps, because writing to the terminal may fail.
/// [`Renderer::render`] stages the frame of a scene and returns the writes
/// for it. Once they are written and flushed, [`Renderer::commit`] makes the
/// staged frame the one that the terminal shows. If they could not be
/// written, [`Renderer::abandon`] drops the staged frame, and the next scene
/// is again compared with the last frame that went through.
#[derive(Debug)]
pub struct Renderer {
    old_frame: Frame,
    staged: Option<Frame>,
}

impl View for Renderer {
    type V = RendererView;

    closed spec fn view(&self) -> RendererView {
        RendererView {
            width: self.old_frame.spec_width(),
            height: self.old_frame.spec_height(),
            shown: self.old_frame@,
            staged: match self.staged {
                Some(frame) => Some(frame@),
                None => None,
            },
        }
    }
}

impl Renderer {
    /// The staged frame has the size of the window.
    #[verifier::type_invariant]
    closed spec fn same_size(self) -> bool {
        self.staged matches Some(frame) ==> frame.spec_width() == self.old_frame.spec_width()
            && frame.spec_height() == self.old_frame.spec_height()
    }

    /// A renderer for a terminal window of `win_width` columns and
    /// `win_height` rows that shows nothing yet.
    pub fn new(win_width: u16, win_height: u16) -> (renderer: Renderer)
        ensures
            renderer@ == RendererView::fresh(win_width as nat, win_height as nat),
    {
        let old_frame = Frame::blank(win_width, win_height);
        assert(old_frame@ =~~= painted(Seq::empty(), win_width as nat, win_height as nat));
        Renderer { old_frame, staged: None }
    }

    /// Stages the frame that shows `objects`, drawn in the order of the
    /// list, and returns the writes that make the terminal show it.
    ///
    /// What the terminal is taken to show does not change before
    /// [`Renderer::commit`].
    pub fn render(&mut self, objects: &Vec<(&Location, &Representation)>) -> (writes: Vec<CellWrite>)
        ensures
            (final(self)@, writes@) == old(self)@.render(scene_of(objects@)),
    {
        let next = compose(objects, self.old_frame.width(), self.old_frame.height());
        let writes = diff(&self.old_frame, &next);
        self.staged = Some(next);
        writes
    }

    /// Records that the writes of the last [`Renderer::render`] reached the
    /// terminal. Without a staged frame nothing changes.
    pub fn commit(&mut self)
        ensures
            final(self)@ == old(self)@.commit(),
    {
        proof {
            use_type_invariant(&*self);
        }
        let mut staged: Option<Frame> = None;
        std::mem::swap(&mut staged, &mut self.staged);
        match staged {
            Some(frame) => {
                self.old_frame = frame;
            },
            None => {},
        }
    }

    /// Records that the writes of the last [`Renderer::render`] did not
    /// reach the terminal.
    pub fn abandon(&mut self)
        ensures
            final(self)@ == old(self)@.abandon(),
    {
        self.staged = None;
    }

    /// The frame that the terminal shows.
    pub fn frame(&self) -> (frame: &Frame)
        ensures
            frame@ == self@.shown,
            frame.spec_width() == self@.width,
            frame.spec_height() == self@.height,
    {
        &self.old_frame
    }
}

/// Rendering a scene costs one write for each cell in which the frame of
/// the scene differs from what the terminal shows, and no more.
pub proof fn lemma_render_writes_what_differs(renderer: RendererView, scene: Seq<Placed>)
    ensures
        ({
            let differing = differing_cells(
                renderer.shown,
                renderer.frame_of(scene),
                renderer.width,
                renderer.height,
            );
            differing.finite() && renderer.render(scene).1.len() == differing.len()
        }),
{
    lemma_one_write_per_differing_cell(
        renderer.shown,
        renderer.frame_of(scene),
        renderer.width,
        renderer.height,
    );
}

/// A scene that is rendered a second time, right after its writes went
/// through, needs no write.
pub proof fn lemma_second_render_is_silent(renderer: RendererView, scene: Seq<Placed>)
    ensures
        renderer.render(scene).0.commit().render(scene).1 == Seq::<CellWrite>::empty(),
{
    lemma_same_frame_needs_no_write(renderer.frame_of(scene), renderer.width, renderer.height);
}

/// A sprite of which no cell lies in the window costs no write and changes
/// no frame, wherever it stands in the scene.
pub proof fn lemma_out_of_sight_is_free(renderer: RendererView, scene: Seq<Placed>, k: int)
    requires
        0 <= k < scene.len(),
        scene[k].out_of_sight(renderer.width, renderer.height),
    ensures
        renderer.render(scene) == renderer.render(scene.remove(k)),
{
    lemma_out_of_sight_draws_nothing(scene, k, renderer.width, renderer.height);
}

/// A new renderer has nothing to write for a scene of one sprite of which
/// no cell lies in the window.
pub proof fn lemma_out_of_sight_alone_is_silent(width: nat, height: nat, placed: Placed)
    requires
        placed.out_of_sight(width, height),
    ensures
        RendererView::fresh(width, height).render(seq![placed]).1 == Seq::<CellWrite>::empty(),
{
    let renderer = RendererView::fresh(width, height);
    lemma_out_of_sight_draws_nothing(seq![placed], 0, width, height);
    assert(seq![placed].remove(0) =~= Seq::empty());
    lemma_same_frame_needs_no_write(renderer.shown, width, height);
}

/// Writes that fail leave the renderer as it was before the scene was
/// rendered, but for a frame that was staged then.
pub proof fn lemma_failed_render_is_undone(renderer: RendererView, scene: Seq<Placed>)
    ensures
        renderer.render(scene).0.abandon() == renderer.abandon(),
{
}

} // verus!
