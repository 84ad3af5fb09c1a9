use vstd::prelude::*;

verus! {

/// How many corner vertices the quad's vertex buffer holds.
pub const QUAD_VERTEX_COUNT: u32 = 4;

/// What the render loop tracks between events: the viewport dimensions last
/// handed to the driver.
#[derive(Clone, Copy, PartialEq, Eq, Structural, Debug)]
pub struct RendererState {
    pub width: u32,
    pub height: u32,
}

/// A windowing event the render loop consumes.
#[derive(Clone, Copy, PartialEq, Eq, Structural, Debug)]
pub enum LoopEvent {
    CloseRequested,
    Resized { width: u32, height: u32 },
    RedrawRequested,
    Other,
}

/// What the loop must do in response to one event.
#[derive(Clone, Copy, PartialEq, Eq, Structural, Debug)]
pub enum LoopAction {
    /// Stop the event loop.
    Exit,
    /// Resize the surface and re-issue the viewport at these dimensions.
    ApplyViewport { width: u32, height: u32 },
    /// Clear, draw the quad, and swap buffers.
    RenderFrame,
    /// Nothing to do.
    Ignore,
}

/// The loop's transition: next state and action for one event.
pub open spec fn spec_step(s: RendererState, e: LoopEvent) -> (RendererState, LoopAction) {
    match e {
        LoopEvent::CloseRequested => (s, LoopAction::Exit),
        LoopEvent::Resized { width, height } => (
            RendererState { width, height },
            LoopAction::ApplyViewport { width, height },
        ),
        LoopEvent::RedrawRequested => (s, LoopAction::RenderFrame),
        LoopEvent::Other => (s, LoopAction::Ignore),
    }
}

/// Consume one event: update the tracked viewport and say what to do.
pub fn handle_event(state: &mut RendererState, event: &LoopEvent) -> (a: LoopAction)
    ensures
        (*final(state), a) == spec_step(*old(state), *event),
{
    match *event {
        LoopEvent::CloseRequested => LoopAction::Exit,
        LoopEvent::Resized { width, height } => {
            state.width = width;
            state.height = height;
            LoopAction::ApplyViewport { width, height }
        },
        LoopEvent::RedrawRequested => LoopAction::RenderFrame,
        LoopEvent::Other => LoopAction::Ignore,
    }
}

/// A resize followed by a redraw request renders the frame with the viewport
/// exactly at the resized dimensions.
pub proof fn lemma_resize_then_redraw(s: RendererState, w: u32, h: u32)
    ensures
        ({
            let (s1, _) = spec_step(s, LoopEvent::Resized { width: w, height: h });
            let (s2, a2) = spec_step(s1, LoopEvent::RedrawRequested);
            a2 == LoopAction::RenderFrame && s2.width == w && s2.height == h
        }),
{
}

/// The index buffer for the quad: two triangles sharing two of the four
/// corner vertices. Every index addresses one of the quad's vertices.
pub fn quad_indices() -> (r: Vec<u32>)
    ensures
        r@ == seq![0u32, 1u32, 3u32, 1u32, 2u32, 3u32],
        forall|i: int| 0 <= i < r@.len() ==> r@[i] < QUAD_VERTEX_COUNT,
{
    let mut v: Vec<u32> = Vec::new();
    v.push(0);
    v.push(1);
    v.push(3);
    v.push(1);
    v.push(2);
    v.push(3);
    assert(v@ =~= seq![0u32, 1u32, 3u32, 1u32, 2u32, 3u32]);
    v
}

} // verus!
