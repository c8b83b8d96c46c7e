use std::collections::HashMap;
use vstd::prelude::*;

verus! {

broadcast use vstd::std_specs::hash::group_hash_axioms;

/// The engine's identifier of a view; `0` is the implicit, primary view.
#[derive(Debug, Clone, Copy, PartialEq, Eq, Structural, Hash)]
pub struct ViewId {
    pub raw: i64,
}

impl View for ViewId {
    type V = i64;

    open spec fn view(&self) -> i64 {
        self.raw
    }
}

impl ViewId {
    pub fn new(raw: i64) -> (r: Self)
        ensures
            r == (ViewId { raw }),
    {
        ViewId { raw }
    }

    pub fn raw(&self) -> (r: i64)
        ensures
            r == self@,
    {
        self.raw
    }
}

/// The identifier of the implicit view.
pub const IMPLICIT_VIEW: i64 = 0;

/// The width in pixels of the implicit view before its first configure event.
pub const INITIAL_VIEW_WIDTH: u32 = 1600;

/// The height in pixels of the implicit view before its first configure event.
pub const INITIAL_VIEW_HEIGHT: u32 = 900;

/// A size in pixels whose sides are both positive.
#[derive(Debug, Clone, Copy, PartialEq, Eq, Structural)]
pub struct NonZeroSize {
    pub width: u32,
    pub height: u32,
}

impl NonZeroSize {
    pub open spec fn wf(&self) -> bool {
        self.width > 0 && self.height > 0
    }

    /// The size `width` x `height`, or `None` when either side is zero.
    pub fn new(width: u32, height: u32) -> (r: Option<Self>)
        ensures
            r == (if width > 0 && height > 0 {
                Some(NonZeroSize { width, height })
            } else {
                None
            }),
    {
        if width > 0 && height > 0 {
            Some(NonZeroSize { width, height })
        } else {
            None
        }
    }
}

/// What the registry knows of one view: the size the engine was last told,
/// and the size its window surface had when a frame was last presented on it.
#[derive(Debug, Clone, Copy, PartialEq, Eq, Structural)]
pub struct FlutterView {
    pub view_id: ViewId,
    pub size: NonZeroSize,
    pub surface_size: NonZeroSize,
}

/// The registry's views, by raw identifier.
pub type Views = Map<i64, FlutterView>;

/// The view registered under `id`.
pub open spec fn lookup(s: Views, id: i64) -> Option<FlutterView> {
    if s.contains_key(id) {
        Some(s[id])
    } else {
        None
    }
}

/// Each view is filed under its own identifier, and its sizes are positive.
pub open spec fn views_wf(s: Views) -> bool {
    forall|k: i64|
        #[trigger] s.contains_key(k) ==> s[k].view_id@ == k && s[k].size.wf()
            && s[k].surface_size.wf()
}

/// The implicit view as it is before any configure event.
pub open spec fn initial_view() -> FlutterView {
    let size = NonZeroSize { width: INITIAL_VIEW_WIDTH, height: INITIAL_VIEW_HEIGHT };
    FlutterView { view_id: ViewId { raw: IMPLICIT_VIEW }, size, surface_size: size }
}

/// `v` after a configure event gave it `size`.
pub open spec fn resized(v: FlutterView, size: NonZeroSize) -> FlutterView {
    FlutterView { view_id: v.view_id, size, surface_size: v.surface_size }
}

/// `v` once a frame was presented on it, its surface resized to its size.
pub open spec fn presented(v: FlutterView) -> FlutterView {
    FlutterView { view_id: v.view_id, size: v.size, surface_size: v.size }
}

/// A window-metrics update for the engine, without its fixed pixel ratio and insets.
#[derive(Debug, Clone, Copy, PartialEq, Eq, Structural)]
pub struct WindowMetrics {
    pub width: usize,
    pub height: usize,
    pub left: usize,
    pub top: usize,
    pub display_id: u64,
    pub view_id: i64,
}

/// The metrics update that tells the engine view `id` now has `size`.
pub open spec fn metrics_for(id: i64, size: NonZeroSize) -> WindowMetrics {
    WindowMetrics {
        width: size.width as usize,
        height: size.height as usize,
        left: 0,
        top: 0,
        display_id: 0,
        view_id: id,
    }
}

/// One step in handling a configure event, to be carried out in order; a
/// failure of the first is fatal to the session and stops the rest.
#[derive(Debug, Clone, Copy, PartialEq, Eq, Structural)]
pub enum ConfigureEffect {
    /// Send this metrics update to the engine.
    SendWindowMetrics(WindowMetrics),
    /// Record the new size with `Compositor::store_size`.
    StoreSize { view_id: ViewId, size: NonZeroSize },
    /// Acknowledge the configure event with this serial.
    AckConfigure { serial: u32 },
}

/// How a configure event is handled.
pub enum ConfigureOutcome {
    /// The event names a view that is not registered; nothing is done.
    ViewNotFound,
    /// The event carries a zero width or height; nothing is done.
    Ignored,
    /// These steps are carried out in order.
    Apply(Vec<ConfigureEffect>),
}

/// The mathematical form of a `ConfigureOutcome`.
pub enum ConfigurePlan {
    ViewNotFound,
    Ignored,
    Apply(Seq<ConfigureEffect>),
}

impl View for ConfigureOutcome {
    type V = ConfigurePlan;

    open spec fn view(&self) -> ConfigurePlan {
        match self {
            ConfigureOutcome::ViewNotFound => ConfigurePlan::ViewNotFound,
            ConfigureOutcome::Ignored => ConfigurePlan::Ignored,
            ConfigureOutcome::Apply(v) => ConfigurePlan::Apply(v@),
        }
    }
}

/// The steps that give the registered view `v` the size `size`.
pub open spec fn configure_effects(v: FlutterView, serial: u32, size: NonZeroSize) -> Seq<
    ConfigureEffect,
> {
    seq![
        ConfigureEffect::SendWindowMetrics(metrics_for(v.view_id@, size)),
        ConfigureEffect::StoreSize { view_id: v.view_id, size },
        ConfigureEffect::AckConfigure { serial },
    ]
}

/// How the registry `s` handles a configure event for `id` with `width` x `height`.
pub open spec fn configure_plan(s: Views, id: i64, serial: u32, width: u32, height: u32) -> ConfigurePlan {
    match lookup(s, id) {
        None => ConfigurePlan::ViewNotFound,
        Some(v) => if width > 0 && height > 0 {
            ConfigurePlan::Apply(
                configure_effects(v, serial, NonZeroSize { width, height }),
            )
        } else {
            ConfigurePlan::Ignored
        },
    }
}

/// The registry `s` once `size` is stored for view `id`.
pub open spec fn state_after_store(s: Views, id: i64, size: NonZeroSize) -> Views {
    match lookup(s, id) {
        None => s,
        Some(v) => s.insert(id, resized(v, size)),
    }
}

/// One layer of a composited frame, in the order the engine stacks them.
#[derive(Debug, Clone, Copy, PartialEq, Eq, Structural)]
pub enum CompositorLayer {
    /// Content the engine rendered into a backing store with this color texture.
    BackingStore { texture: u32 },
    /// A platform view, which this embedder does not render.
    PlatformView { identifier: i64 },
}

/// One GPU operation of the present algorithm, to be carried out in order.
#[derive(Debug, Clone, Copy, PartialEq, Eq, Structural)]
pub enum GpuCommand {
    /// Resize the view's window surface.
    ResizeSurface { view_id: ViewId, width: u32, height: u32 },
    /// Bind the render context to the view's window surface.
    MakeCurrent { view_id: ViewId },
    /// Save the array buffer, vertex array, draw framebuffer and texture bindings.
    SaveBindings,
    /// Draw the texture over the whole surface with the prepared quad and program.
    DrawTexture { texture: u32 },
    /// Swap the buffers of the view's window surface.
    SwapBuffers { view_id: ViewId },
    /// Restore the bindings saved last.
    RestoreBindings,
    /// Note that a platform-view layer was left out.
    SkipPlatformView { identifier: i64 },
    /// Unbind the render context.
    ClearCurrent,
}

/// What the present algorithm does for one layer on view `view_id`.
pub open spec fn layer_commands(view_id: ViewId, layer: CompositorLayer) -> Seq<GpuCommand> {
    match layer {
        CompositorLayer::BackingStore { texture } => seq![
            GpuCommand::SaveBindings,
            GpuCommand::DrawTexture { texture },
            GpuCommand::SwapBuffers { view_id },
            GpuCommand::RestoreBindings,
        ],
        CompositorLayer::PlatformView { identifier } => seq![
            GpuCommand::SkipPlatformView { identifier },
        ],
    }
}

/// What the present algorithm does for the layers `ls`, in order.
pub open spec fn layers_commands(view_id: ViewId, ls: Seq<CompositorLayer>) -> Seq<GpuCommand>
    decreases ls.len(),
{
    if ls.len() == 0 {
        Seq::empty()
    } else {
        layers_commands(view_id, ls.drop_last()) + layer_commands(view_id, ls.last())
    }
}

/// The commands that present the layers `ls` on the registered view `v`.
pub open spec fn present_commands(v: FlutterView, ls: Seq<CompositorLayer>) -> Seq<GpuCommand> {
    let resize = if v.size != v.surface_size {
        seq![
            GpuCommand::ResizeSurface {
                view_id: v.view_id,
                width: v.size.width,
                height: v.size.height,
            },
        ]
    } else {
        Seq::empty()
    };
    resize + seq![GpuCommand::MakeCurrent { view_id: v.view_id }] + layers_commands(v.view_id, ls)
        + seq![GpuCommand::ClearCurrent]
}

/// How a frame is presented.
pub enum PresentOutcome {
    /// The view is not registered: the frame is not presented and no GPU call is made.
    NotHandled,
    /// These commands present the frame.
    Presented(Vec<GpuCommand>),
}

/// The mathematical form of a `PresentOutcome`.
pub enum PresentPlan {
    NotHandled,
    Presented(Seq<GpuCommand>),
}

impl View for PresentOutcome {
    type V = PresentPlan;

    open spec fn view(&self) -> PresentPlan {
        match self {
            PresentOutcome::NotHandled => PresentPlan::NotHandled,
            PresentOutcome::Presented(v) => PresentPlan::Presented(v@),
        }
    }
}

/// How the registry `s` presents the layers `ls` on view `id`.
pub open spec fn present_plan(s: Views, id: i64, ls: Seq<CompositorLayer>) -> PresentPlan {
    match lookup(s, id) {
        None => PresentPlan::NotHandled,
        Some(v) => PresentPlan::Presented(present_commands(v, ls)),
    }
}

/// The registry `s` once a frame was presented on view `id`.
pub open spec fn state_after_present(s: Views, id: i64) -> Views {
    match lookup(s, id) {
        None => s,
        Some(v) => s.insert(id, presented(v)),
    }
}


/// A configure event whose width or height is zero neither sends a metrics
/// update to the engine nor stores a size: its plan holds no step at all.
pub proof fn lemma_zero_configure_ignored(s: Views, id: i64, serial: u32, width: u32, height: u32)
    requires
        width == 0 || height == 0,
    ensures
        configure_plan(s, id, serial, width, height) == ConfigurePlan::ViewNotFound
            || configure_plan(s, id, serial, width, height) == ConfigurePlan::Ignored,
{
}

/// A configure event with positive width and height for a registered view
/// sends exactly one metrics update, then stores the size exactly once, and
/// only then acknowledges the event. Storing the size gives that view the new
/// size and leaves every other view as it was.
pub proof fn lemma_positive_configure(s: Views, id: i64, serial: u32, width: u32, height: u32)
    requires
        views_wf(s),
        s.contains_key(id),
        width > 0,
        height > 0,
    ensures
        configure_plan(s, id, serial, width, height) == ConfigurePlan::Apply(
            seq![
                ConfigureEffect::SendWindowMetrics(metrics_for(id, NonZeroSize { width, height })),
                ConfigureEffect::StoreSize {
                    view_id: ViewId { raw: id },
                    size: NonZeroSize { width, height },
                },
                ConfigureEffect::AckConfigure { serial },
            ],
        ),
        state_after_store(s, id, NonZeroSize { width, height })[id].size == (NonZeroSize {
            width,
            height,
        }),
        state_after_store(s, id, NonZeroSize { width, height }).dom() == s.dom(),
        forall|k: i64|
            k != id && #[trigger] s.contains_key(k) ==> state_after_store(
                s,
                id,
                NonZeroSize { width, height },
            )[k] == s[k],
{
    assert(s.insert(id, resized(s[id], NonZeroSize { width, height })).dom() =~= s.dom());
}

/// Presenting a frame on a view that is not registered reports it as not
/// handled, makes no GPU call and leaves the registry unchanged.
pub proof fn lemma_unknown_view_not_presented(s: Views, id: i64, ls: Seq<CompositorLayer>)
    requires
        !s.contains_key(id),
    ensures
        present_plan(s, id, ls) == PresentPlan::NotHandled,
        state_after_present(s, id) == s,
{
}

/// The view whose surface a command acts on, if any.
pub open spec fn command_view(c: GpuCommand) -> Option<ViewId> {
    match c {
        GpuCommand::ResizeSurface { view_id, .. } => Some(view_id),
        GpuCommand::MakeCurrent { view_id } => Some(view_id),
        GpuCommand::SwapBuffers { view_id } => Some(view_id),
        _ => None,
    }
}

/// Whether `c` acts on no surface or on the surface of view `id`.
pub open spec fn stays_on(c: GpuCommand, id: i64) -> bool {
    match command_view(c) {
        None => true,
        Some(w) => w@ == id,
    }
}

proof fn lemma_layers_stay_on_view(view_id: ViewId, ls: Seq<CompositorLayer>)
    ensures
        forall|j: int|
            0 <= j < layers_commands(view_id, ls).len() ==> stays_on(
                #[trigger] layers_commands(view_id, ls)[j],
                view_id@,
            ),
    decreases ls.len(),
{
    if ls.len() > 0 {
        lemma_layers_stay_on_view(view_id, ls.drop_last());
        let a = layers_commands(view_id, ls.drop_last());
        let b = layer_commands(view_id, ls.last());
        assert forall|j: int| 0 <= j < (a + b).len() implies stays_on(#[trigger] (a + b)[j], view_id@) by {
            if j >= a.len() {
                assert((a + b)[j] == b[j - a.len()]);
            } else {
                assert((a + b)[j] == a[j]);
            }
        }
    }
}

/// A frame presented on view `id` binds, draws to, resizes and swaps only that
/// view's surface, and ends by unbinding the render context.
pub proof fn lemma_present_stays_on_view(s: Views, id: i64, ls: Seq<CompositorLayer>)
    requires
        views_wf(s),
        s.contains_key(id),
    ensures
        forall|j: int|
            0 <= j < present_commands(s[id], ls).len() ==> stays_on(
                #[trigger] present_commands(s[id], ls)[j],
                id,
            ),
        present_commands(s[id], ls).last() == GpuCommand::ClearCurrent,
{
    let v = s[id];
    lemma_layers_stay_on_view(v.view_id, ls);
    let c = present_commands(v, ls);
    let resize = if v.size != v.surface_size {
        seq![
            GpuCommand::ResizeSurface {
                view_id: v.view_id,
                width: v.size.width,
                height: v.size.height,
            },
        ]
    } else {
        Seq::empty()
    };
    let l = layers_commands(v.view_id, ls);
    let head = resize + seq![GpuCommand::MakeCurrent { view_id: v.view_id }];
    assert forall|j: int| 0 <= j < c.len() implies stays_on(#[trigger] c[j], id) by {
        if j < head.len() {
            assert(c[j] == head[j]);
        } else if j < head.len() + l.len() {
            assert(c[j] == l[j - head.len()]);
        }
    }
}

/// The registry of views that the engine draws into.
pub struct Compositor {
    views: HashMap<i64, FlutterView>,
}

impl View for Compositor {
    type V = Views;

    closed spec fn view(&self) -> Views {
        self.views@
    }
}

impl Compositor {
    pub open spec fn wf(&self) -> bool {
        views_wf(self@)
    }

    /// A registry holding the implicit view alone, at its initial size.
    pub fn init() -> (r: Self)
        ensures
            r.wf(),
            r@ == map![IMPLICIT_VIEW => initial_view()],
    {
        let size = NonZeroSize { width: INITIAL_VIEW_WIDTH, height: INITIAL_VIEW_HEIGHT };
        let mut views: HashMap<i64, FlutterView> = HashMap::new();
        views.insert(
            IMPLICIT_VIEW,
            FlutterView { view_id: ViewId::new(IMPLICIT_VIEW), size, surface_size: size },
        );
        proof {
            assert(views@ =~= map![IMPLICIT_VIEW => initial_view()]);
        }
        Compositor { views }
    }

    /// The view registered under `view_id`.
    fn find(&self, view_id: ViewId) -> (r: Option<FlutterView>)
        ensures
            r == lookup(self@, view_id@),
    {
        match self.views.get(&view_id.raw) {
            Some(v) => Some(*v),
            None => None,
        }
    }

    pub fn get_view(&self, view_id: ViewId) -> (r: Option<&FlutterView>)
        ensures
            r.is_some() == self@.contains_key(view_id@),
            r.is_some() ==> *r.unwrap() == self@[view_id@],
    {
        self.views.get(&view_id.raw)
    }

    /// Registers `view`; refused, with no change, when its identifier is taken.
    pub fn insert_view(&mut self, view: FlutterView) -> (r: bool)
        requires
            old(self).wf(),
            view.size.wf(),
            view.surface_size.wf(),
        ensures
            final(self).wf(),
            r == !old(self)@.contains_key(view.view_id@),
            final(self)@ == (if r {
                old(self)@.insert(view.view_id@, view)
            } else {
                old(self)@
            }),
    {
        if self.views.contains_key(&view.view_id.raw) {
            false
        } else {
            self.views.insert(view.view_id.raw, view);
            true
        }
    }

    /// Unregisters the view `view_id` and returns it; later lookups of it find nothing.
    pub fn remove_view(&mut self, view_id: ViewId) -> (r: Option<FlutterView>)
        requires
            old(self).wf(),
        ensures
            final(self).wf(),
            r == lookup(old(self)@, view_id@),
            final(self)@ == old(self)@.remove(view_id@),
    {
        self.views.remove(&view_id.raw)
    }

    /// Decides how to handle a configure event for `view_id` that allots
    /// `width` x `height`: an unknown view or a zero side changes nothing;
    /// otherwise the engine is sent the new metrics, then the size is stored,
    /// then the event is acknowledged.
    pub fn plan_configure(&self, view_id: ViewId, serial: u32, width: u32, height: u32) -> (r:
        ConfigureOutcome)
        requires
            self.wf(),
        ensures
            r@ == configure_plan(self@, view_id@, serial, width, height),
    {
        match self.find(view_id) {
            None => ConfigureOutcome::ViewNotFound,
            Some(v) => {
                if width > 0 && height > 0 {
                    let size = NonZeroSize { width, height };
                    let metrics = WindowMetrics {
                        width: width as usize,
                        height: height as usize,
                        left: 0,
                        top: 0,
                        display_id: 0,
                        view_id: v.view_id.raw,
                    };
                    let mut effects: Vec<ConfigureEffect> = Vec::new();
                    effects.push(ConfigureEffect::SendWindowMetrics(metrics));
                    effects.push(ConfigureEffect::StoreSize { view_id: v.view_id, size });
                    effects.push(ConfigureEffect::AckConfigure { serial });
                    proof {
                        assert(effects@ =~= configure_effects(v, serial, size));
                    }
                    ConfigureOutcome::Apply(effects)
                } else {
                    ConfigureOutcome::Ignored
                }
            },
        }
    }

    /// Records that the engine was told view `view_id` has `size`; the view's
    /// surface is resized at its next present if its size then differs from
    /// the surface's. Returns whether the view is registered.
    pub fn store_size(&mut self, view_id: ViewId, size: NonZeroSize) -> (r: bool)
        requires
            old(self).wf(),
            size.wf(),
        ensures
            final(self).wf(),
            r == old(self)@.contains_key(view_id@),
            final(self)@ == state_after_store(old(self)@, view_id@, size),
    {
        match self.find(view_id) {
            None => false,
            Some(v) => {
                self.views.insert(
                    view_id.raw,
                    FlutterView { view_id: v.view_id, size, surface_size: v.surface_size },
                );
                true
            },
        }
    }

    /// Plans the presentation of one composited frame on view `view_id`: an
    /// unregistered view is not presented and gets no GPU call; otherwise the
    /// surface is resized if its size differs from the view's, the render
    /// context is bound to it, each backing-store layer is drawn and swapped
    /// between a save and a restore of the GPU bindings, platform-view layers
    /// are skipped, and the context is unbound.
    pub fn present_view(&mut self, view_id: ViewId, layers: &Vec<CompositorLayer>) -> (r:
        PresentOutcome)
        requires
            old(self).wf(),
        ensures
            final(self).wf(),
            r@ == present_plan(old(self)@, view_id@, layers@),
            final(self)@ == state_after_present(old(self)@, view_id@),
    {
        let v = match self.find(view_id) {
            None => {
                return PresentOutcome::NotHandled;
            },
            Some(v) => v,
        };
        let mut cmds: Vec<GpuCommand> = Vec::new();
        if v.size != v.surface_size {
            cmds.push(
                GpuCommand::ResizeSurface {
                    view_id: v.view_id,
                    width: v.size.width,
                    height: v.size.height,
                },
            );
        }
        cmds.push(GpuCommand::MakeCurrent { view_id: v.view_id });
        let ghost head = cmds@;
        let mut k: usize = 0;
        while k < layers.len()
            invariant
                0 <= k <= layers@.len(),
                cmds@ == head + layers_commands(v.view_id, layers@.take(k as int)),
            decreases layers@.len() - k,
        {
            let ghost before = cmds@;
            match layers[k] {
                CompositorLayer::BackingStore { texture } => {
                    cmds.push(GpuCommand::SaveBindings);
                    cmds.push(GpuCommand::DrawTexture { texture });
                    cmds.push(GpuCommand::SwapBuffers { view_id: v.view_id });
                    cmds.push(GpuCommand::RestoreBindings);
                },
                CompositorLayer::PlatformView { identifier } => {
                    cmds.push(GpuCommand::SkipPlatformView { identifier });
                },
            }
            proof {
                assert(layers@.take(k + 1).drop_last() =~= layers@.take(k as int));
                assert(cmds@ =~= before + layer_commands(v.view_id, layers@[k as int]));
                assert(cmds@ =~= head + layers_commands(v.view_id, layers@.take(k + 1)));
            }
            k = k + 1;
        }
        cmds.push(GpuCommand::ClearCurrent);
        proof {
            assert(layers@.take(layers@.len() as int) =~= layers@);
            assert(cmds@ =~= present_commands(v, layers@));
        }
        self.views.insert(
            view_id.raw,
            FlutterView { view_id: v.view_id, size: v.size, surface_size: v.size },
        );
        PresentOutcome::Presented(cmds)
    }
}

} // verus!
