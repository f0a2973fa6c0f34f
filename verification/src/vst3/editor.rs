//! Plugin editors: sizes, and what an editor session asks of a view.

use vstd::prelude::*;
use vstd::string::*;

use crate::registry::EditorSize;
use crate::text::{push_signed_decimal, signed_decimal_text};

verus! {

/// Rectangle of a plugin view.
#[derive(Debug, Clone, Copy, PartialEq, Eq, Structural)]
pub struct ViewRect {
    /// Left edge.
    pub left: i32,
    /// Top edge.
    pub top: i32,
    /// Right edge.
    pub right: i32,
    /// Bottom edge.
    pub bottom: i32,
}

/// The distance from one edge to the other, as far as 32 bits hold it, without its sign: a
/// negative one counts up from the largest.
pub open spec fn extent(from: i32, to: i32) -> u32 {
    let distance = if to - from > i32::MAX {
        i32::MAX as int
    } else if to - from < i32::MIN {
        i32::MIN as int
    } else {
        to - from
    };
    if distance < 0 {
        (distance + 0x1_0000_0000) as u32
    } else {
        distance as u32
    }
}

/// The size of a rectangle, unless one of its sides is zero.
pub open spec fn size_of_rect(rect: ViewRect) -> Option<EditorSize> {
    let width = extent(rect.left, rect.right);
    let height = extent(rect.top, rect.bottom);
    if width > 0 && height > 0 {
        Some(EditorSize { width, height })
    } else {
        None
    }
}

/// A length as an edge; one that is too large wraps around.
pub open spec fn edge(length: u32) -> i32 {
    if length <= i32::MAX {
        length as i32
    } else {
        (length - 0x1_0000_0000) as i32
    }
}

/// The rectangle of a size, at the origin.
pub open spec fn rect_of_size(size: EditorSize) -> ViewRect {
    ViewRect { left: 0, top: 0, right: edge(size.width), bottom: edge(size.height) }
}

fn extent_between(from: i32, to: i32) -> (length: u32)
    ensures
        length == extent(from, to),
{
    let mut distance: i64 = to as i64 - from as i64;
    if distance > i32::MAX as i64 {
        distance = i32::MAX as i64;
    }
    if distance < i32::MIN as i64 {
        distance = i32::MIN as i64;
    }
    if distance < 0 {
        distance = distance + 0x1_0000_0000;
    }
    distance as u32
}

fn edge_at(length: u32) -> (at: i32)
    ensures
        at == edge(length),
{
    if length <= i32::MAX as u32 {
        length as i32
    } else {
        (length as i64 - 0x1_0000_0000) as i32
    }
}

/// Returns the size of a rectangle, unless one of its sides is zero.
pub fn editor_size_from_rect(rect: ViewRect) -> (size: Option<EditorSize>)
    ensures
        size == size_of_rect(rect),
{
    let width = extent_between(rect.left, rect.right);
    let height = extent_between(rect.top, rect.bottom);
    if width > 0 && height > 0 {
        Some(EditorSize { width, height })
    } else {
        None
    }
}

/// Returns the rectangle of a size, at the origin.
pub fn rect_from_editor_size(size: EditorSize) -> (rect: ViewRect)
    ensures
        rect == rect_of_size(size),
{
    ViewRect { left: 0, top: 0, right: edge_at(size.width), bottom: edge_at(size.height) }
}

/// Whether the sides of a rectangle can be told as numbers of 32 bits.
pub open spec fn has_sides(rect: ViewRect) -> bool {
    &&& i32::MIN <= rect.right - rect.left <= i32::MAX
    &&& i32::MIN <= rect.bottom - rect.top <= i32::MAX
}

/// The edges and sides of a rectangle as text.
pub open spec fn rect_text(rect: ViewRect) -> Seq<char> {
    "left="@ + signed_decimal_text(rect.left as int) + " top="@ + signed_decimal_text(
        rect.top as int,
    ) + " right="@ + signed_decimal_text(rect.right as int) + " bottom="@ + signed_decimal_text(
        rect.bottom as int,
    ) + " w="@ + signed_decimal_text(rect.right - rect.left) + " h="@ + signed_decimal_text(
        rect.bottom - rect.top,
    )
}

/// Returns whether the sides of a rectangle can be told as numbers of 32 bits.
pub fn rect_has_sides(rect: ViewRect) -> (r: bool)
    ensures
        r == has_sides(rect),
{
    let width: i64 = rect.right as i64 - rect.left as i64;
    let height: i64 = rect.bottom as i64 - rect.top as i64;
    i32::MIN as i64 <= width && width <= i32::MAX as i64 && i32::MIN as i64 <= height && height
        <= i32::MAX as i64
}

/// Returns the edges and sides of a rectangle as text.
pub fn format_view_rect(rect: ViewRect) -> (text: String)
    requires
        has_sides(rect),
    ensures
        text@ == rect_text(rect),
{
    let mut text = "left=".to_owned();
    push_signed_decimal(&mut text, rect.left as i64);
    text.append(" top=");
    push_signed_decimal(&mut text, rect.top as i64);
    text.append(" right=");
    push_signed_decimal(&mut text, rect.right as i64);
    text.append(" bottom=");
    push_signed_decimal(&mut text, rect.bottom as i64);
    text.append(" w=");
    push_signed_decimal(&mut text, (rect.right - rect.left) as i64);
    text.append(" h=");
    push_signed_decimal(&mut text, (rect.bottom - rect.top) as i64);
    text
}

/// What is reported of a size that a plugin requests, and the current size after that.
pub open spec fn changed_request(current: Option<EditorSize>, requested: Option<EditorSize>) -> (
    Option<EditorSize>,
    Option<EditorSize>,
) {
    match requested {
        None => (None, current),
        Some(size) => if current == Some(size) {
            (None, current)
        } else {
            (Some(size), Some(size))
        },
    }
}

/// Takes a size that a plugin requests, and returns it if it changes the current size.
pub fn changed_editor_size_request(
    current_size: &mut Option<EditorSize>,
    requested: Option<EditorSize>,
) -> (changed: Option<EditorSize>)
    ensures
        (changed, *final(current_size)) == changed_request(*old(current_size), requested),
{
    match requested {
        None => None,
        Some(size) => {
            let same = match *current_size {
                None => false,
                Some(current) => current == size,
            };
            if same {
                None
            } else {
                *current_size = Some(size);
                Some(size)
            }
        },
    }
}

/// The request that waits after a further one: a rectangle without area is ignored.
pub open spec fn noted(waiting: Option<EditorSize>, rect: Option<ViewRect>) -> Option<EditorSize> {
    match rect {
        None => waiting,
        Some(r) => match size_of_rect(r) {
            Some(size) => Some(size),
            None => waiting,
        },
    }
}

/// A size that a plugin has requested through its frame, until the editor takes it.
#[derive(Debug)]
pub struct RequestedSize {
    /// The last size that was requested and not taken.
    pub size: Option<EditorSize>,
}

impl RequestedSize {
    /// No size requested.
    pub fn new() -> (host: Self)
        ensures
            host.size is None,
    {
        RequestedSize { size: None }
    }

    /// Takes note of a resize request. A rectangle without area is ignored. Returns whether there
    /// was a rectangle at all.
    pub fn resize_view(&mut self, rect: Option<ViewRect>) -> (valid: bool)
        ensures
            valid == (rect is Some),
            final(self).size == match rect {
                None => old(self).size,
                Some(r) => match size_of_rect(r) {
                    Some(size) => Some(size),
                    None => old(self).size,
                },
            },
            final(self).size == noted(old(self).size, rect),
    {
        match rect {
            None => false,
            Some(rect) => {
                match editor_size_from_rect(rect) {
                    Some(size) => {
                        self.size = Some(size);
                    },
                    None => {},
                }
                true
            },
        }
    }

    /// Takes the requested size.
    pub fn take_requested_size(&mut self) -> (size: Option<EditorSize>)
        ensures
            size == old(self).size,
            final(self).size is None,
    {
        let size = self.size;
        self.size = None;
        size
    }
}

/// Editor failure.
#[derive(Debug, PartialEq, Eq)]
pub enum EditorError {
    /// The plugin has no editor, or none for this platform.
    Unsupported,
    /// The host cannot offer a parent window.
    HostUnavailable(String),
    /// The plugin failed.
    Backend(String),
}

/// The contents of an [`EditorError`].
pub enum EditorFailure {
    Unsupported,
    HostUnavailable(Seq<char>),
    Backend(Seq<char>),
}

impl View for EditorError {
    type V = EditorFailure;

    open spec fn view(&self) -> EditorFailure {
        match self {
            EditorError::Unsupported => EditorFailure::Unsupported,
            EditorError::HostUnavailable(text) => EditorFailure::HostUnavailable(text@),
            EditorError::Backend(text) => EditorFailure::Backend(text@),
        }
    }
}

/// Window system of the window that an editor is attached to.
#[derive(Debug, PartialEq, Eq)]
pub enum ParentWindow {
    /// An AppKit view.
    AppKit,
    /// A Win32 window.
    Win32,
    /// A window of the X server, through Xlib.
    Xlib,
    /// A window of the X server, through XCB.
    Xcb,
    /// A Wayland surface.
    Wayland,
    /// Any other window, described.
    Other(String),
}

/// Platform type that a VST3 view is attached as.
#[derive(Debug, Clone, Copy, PartialEq, Eq, Structural)]
pub enum PlatformType {
    /// `NSView`.
    NsView,
    /// `HWND`.
    Hwnd,
    /// `X11EmbedWindowID`.
    X11EmbedWindowId,
    /// `WaylandSurfaceID`.
    WaylandSurfaceId,
}

/// The platform type for a window, or the complaint about it.
pub open spec fn platform_of(parent: ParentWindow) -> Result<PlatformType, EditorFailure> {
    match parent {
        ParentWindow::AppKit => Ok(PlatformType::NsView),
        ParentWindow::Win32 => Ok(PlatformType::Hwnd),
        ParentWindow::Xlib => Ok(PlatformType::X11EmbedWindowId),
        ParentWindow::Xcb => Ok(PlatformType::X11EmbedWindowId),
        ParentWindow::Wayland => Ok(PlatformType::WaylandSurfaceId),
        ParentWindow::Other(window) => Err(
            EditorFailure::HostUnavailable("unsupported VST3 editor parent: "@ + window@),
        ),
    }
}

/// The contents of a platform type or the complaint about a window.
pub open spec fn platform_view(platform: Result<PlatformType, EditorError>) -> Result<
    PlatformType,
    EditorFailure,
> {
    match platform {
        Ok(platform) => Ok(platform),
        Err(error) => Err(error@),
    }
}

/// Returns the platform type for a window.
pub fn vst3_parent_for_parent(parent: &ParentWindow) -> (platform: Result<
    PlatformType,
    EditorError,
>)
    ensures
        platform_view(platform) == platform_of(*parent),
{
    match parent {
        ParentWindow::AppKit => Ok(PlatformType::NsView),
        ParentWindow::Win32 => Ok(PlatformType::Hwnd),
        ParentWindow::Xlib => Ok(PlatformType::X11EmbedWindowId),
        ParentWindow::Xcb => Ok(PlatformType::X11EmbedWindowId),
        ParentWindow::Wayland => Ok(PlatformType::WaylandSurfaceId),
        ParentWindow::Other(window) => {
            let mut text = "unsupported VST3 editor parent: ".to_owned();
            text.append(window.as_str());
            Err(EditorError::HostUnavailable(text))
        },
    }
}

/// What attaching an editor asks of the plugin.
#[derive(Debug)]
pub enum AttachAction {
    /// Create the editor's view.
    CreateView,
    /// Make a frame for the view.
    MakeFrame,
    /// Give the view its frame and ask whether it supports a platform type.
    AskSupport(PlatformType),
    /// Attach the view to the window as this type.
    Attach(PlatformType),
    /// Read the size of the view.
    ReadSize,
    /// Nothing: the editor is attached and has this size.
    Attached(Option<EditorSize>),
    /// Nothing: the editor could not be attached.
    Failed(EditorError),
    /// The answer to the last request, which the given one was not.
    Wait,
}

/// The plugin's answer.
#[derive(Debug, Clone, Copy, PartialEq, Eq, Structural)]
pub enum AttachReply {
    /// Whether there is a view.
    View(bool),
    /// Whether there is a frame.
    Frame(bool),
    /// Whether the platform type is supported.
    Support(bool),
    /// Whether the view was attached.
    Attached(bool),
    /// The rectangle of the view, if it has one.
    Size(Option<ViewRect>),
}

/// The contents of an [`AttachAction`].
pub enum AttachRequest {
    CreateView,
    MakeFrame,
    AskSupport(PlatformType),
    Attach(PlatformType),
    ReadSize,
    Attached(Option<EditorSize>),
    Failed(EditorFailure),
    Wait,
}

impl View for AttachAction {
    type V = AttachRequest;

    open spec fn view(&self) -> AttachRequest {
        match self {
            AttachAction::CreateView => AttachRequest::CreateView,
            AttachAction::MakeFrame => AttachRequest::MakeFrame,
            AttachAction::AskSupport(platform) => AttachRequest::AskSupport(*platform),
            AttachAction::Attach(platform) => AttachRequest::Attach(*platform),
            AttachAction::ReadSize => AttachRequest::ReadSize,
            AttachAction::Attached(size) => AttachRequest::Attached(*size),
            AttachAction::Failed(error) => AttachRequest::Failed(error@),
            AttachAction::Wait => AttachRequest::Wait,
        }
    }
}

/// What attaching waits for.
#[derive(Debug, Clone, Copy, PartialEq, Eq, Structural)]
pub enum AttachStage {
    /// Nothing: no view is being attached.
    Idle,
    /// The view.
    View(PlatformType),
    /// The frame.
    Frame(PlatformType),
    /// Whether the platform type is supported.
    Support(PlatformType),
    /// Whether the view was attached.
    Attached,
    /// The view's size.
    Size,
}

/// What resizing an editor asks of its view.
#[derive(Debug, Clone, Copy, PartialEq, Eq, Structural)]
pub enum ResizeAction {
    /// Ask whether the view can be resized.
    AskCanResize,
    /// Let the view constrain a rectangle.
    Constrain(ViewRect),
    /// Give the view a rectangle.
    Apply(ViewRect),
    /// Nothing: this is the size of the editor.
    Done(EditorSize),
    /// The answer to the last request, which the given one was not.
    Wait,
}

/// The view's answer.
#[derive(Debug, Clone, Copy, PartialEq, Eq, Structural)]
pub enum ResizeReply {
    /// Whether the view can be resized.
    CanResize(bool),
    /// What the view made of the rectangle.
    Constrained(ViewRect),
    /// What the rectangle is after the view took it.
    Applied(ViewRect),
}

/// What resizing waits for.
#[derive(Debug, Clone, Copy, PartialEq, Eq, Structural)]
pub enum ResizeStage {
    /// Whether the view can be resized.
    CanResize,
    /// The constrained rectangle.
    Constrain,
    /// The rectangle that the view took.
    Apply,
    /// Nothing.
    Done,
}

/// A resize of an editor.
#[derive(Debug, Clone, Copy, PartialEq, Eq, Structural)]
pub struct Resize {
    /// The size that was asked for.
    pub size: EditorSize,
    /// How far it has come.
    pub stage: ResizeStage,
}

/// Session of one plugin editor.
#[derive(Debug)]
pub struct Vst3EditorSession {
    /// Whether the session has an attached view.
    pub has_view: bool,
    /// Size that the host knows of.
    pub current_size: Option<EditorSize>,
    /// How far attaching has come.
    pub stage: AttachStage,
}

impl Vst3EditorSession {
    /// This session, and the request with which it starts to attach an editor.
    pub open spec fn attaching(self, parent: ParentWindow, has_controller: bool) -> (
        Vst3EditorSession,
        AttachRequest,
    ) {
        let idle = Vst3EditorSession { stage: AttachStage::Idle, ..self };
        match platform_of(parent) {
            Err(failure) => (idle, AttachRequest::Failed(failure)),
            Ok(platform) => if has_controller {
                (
                    Vst3EditorSession { stage: AttachStage::View(platform), ..self },
                    AttachRequest::CreateView,
                )
            } else {
                (idle, AttachRequest::Failed(EditorFailure::Unsupported))
            },
        }
    }

    /// This session after an answer, and what it asks next.
    pub open spec fn after(self, reply: AttachReply) -> (Vst3EditorSession, AttachRequest) {
        let idle = Vst3EditorSession { stage: AttachStage::Idle, ..self };
        let unsupported = (idle, AttachRequest::Failed(EditorFailure::Unsupported));
        match (self.stage, reply) {
            (AttachStage::View(platform), AttachReply::View(found)) => if found {
                (
                    Vst3EditorSession { stage: AttachStage::Frame(platform), ..self },
                    AttachRequest::MakeFrame,
                )
            } else {
                unsupported
            },
            (AttachStage::Frame(platform), AttachReply::Frame(made)) => if made {
                (
                    Vst3EditorSession { stage: AttachStage::Support(platform), ..self },
                    AttachRequest::AskSupport(platform),
                )
            } else {
                unsupported
            },
            (AttachStage::Support(platform), AttachReply::Support(supported)) => if supported {
                (
                    Vst3EditorSession { stage: AttachStage::Attached, ..self },
                    AttachRequest::Attach(platform),
                )
            } else {
                unsupported
            },
            (AttachStage::Attached, AttachReply::Attached(attached)) => if attached {
                (
                    Vst3EditorSession { stage: AttachStage::Size, ..self },
                    AttachRequest::ReadSize,
                )
            } else {
                (
                    idle,
                    AttachRequest::Failed(EditorFailure::Backend("VST3 editor attach failed"@)),
                )
            },
            (AttachStage::Size, AttachReply::Size(rect)) => {
                let size = match rect {
                    None => None,
                    Some(r) => size_of_rect(r),
                };
                (
                    Vst3EditorSession {
                        has_view: true,
                        current_size: size,
                        stage: AttachStage::Idle,
                    },
                    AttachRequest::Attached(size),
                )
            },
            _ => (self, AttachRequest::Wait),
        }
    }

    /// This session without its view.
    pub open spec fn detached(self) -> Vst3EditorSession {
        Vst3EditorSession { has_view: false, current_size: None, ..self }
    }

    /// A session without a view.
    pub fn new() -> (session: Self)
        ensures
            session == (Vst3EditorSession {
                has_view: false,
                current_size: None,
                stage: AttachStage::Idle,
            }),
    {
        Vst3EditorSession { has_view: false, current_size: None, stage: AttachStage::Idle }
    }

    /// Returns the size of the editor, if it is known.
    pub fn initial_size(&self) -> (size: Option<EditorSize>)
        ensures
            size == self.current_size,
    {
        self.current_size
    }

    /// Takes the size that the plugin has requested, and returns it if it is a new one.
    pub fn requested_size(&mut self, host: &mut RequestedSize) -> (changed: Option<EditorSize>)
        ensures
            final(host).size is None,
            *final(self) == (Vst3EditorSession {
                current_size: changed_request(old(self).current_size, old(host).size).1,
                ..*old(self)
            }),
            changed == changed_request(old(self).current_size, old(host).size).0,
    {
        let requested = host.take_requested_size();
        changed_editor_size_request(&mut self.current_size, requested)
    }

    /// Starts to attach the editor to a window.
    pub fn attach(&mut self, parent: &ParentWindow, has_controller: bool) -> (action: AttachAction)
        ensures
            (*final(self), action@) == old(self).attaching(*parent, has_controller),
    {
        self.stage = AttachStage::Idle;
        match vst3_parent_for_parent(parent) {
            Err(error) => AttachAction::Failed(error),
            Ok(platform) => {
                if has_controller {
                    self.stage = AttachStage::View(platform);
                    AttachAction::CreateView
                } else {
                    AttachAction::Failed(EditorError::Unsupported)
                }
            },
        }
    }

    /// Takes the plugin's answer.
    pub fn resume(&mut self, reply: AttachReply) -> (action: AttachAction)
        ensures
            (*final(self), action@) == old(self).after(reply),
    {
        match (self.stage, reply) {
            (AttachStage::View(platform), AttachReply::View(found)) => {
                if found {
                    self.stage = AttachStage::Frame(platform);
                    AttachAction::MakeFrame
                } else {
                    self.stage = AttachStage::Idle;
                    AttachAction::Failed(EditorError::Unsupported)
                }
            },
            (AttachStage::Frame(platform), AttachReply::Frame(made)) => {
                if made {
                    self.stage = AttachStage::Support(platform);
                    AttachAction::AskSupport(platform)
                } else {
                    self.stage = AttachStage::Idle;
                    AttachAction::Failed(EditorError::Unsupported)
                }
            },
            (AttachStage::Support(platform), AttachReply::Support(supported)) => {
                if supported {
                    self.stage = AttachStage::Attached;
                    AttachAction::Attach(platform)
                } else {
                    self.stage = AttachStage::Idle;
                    AttachAction::Failed(EditorError::Unsupported)
                }
            },
            (AttachStage::Attached, AttachReply::Attached(attached)) => {
                if attached {
                    self.stage = AttachStage::Size;
                    AttachAction::ReadSize
                } else {
                    self.stage = AttachStage::Idle;
                    AttachAction::Failed(
                        EditorError::Backend("VST3 editor attach failed".to_owned()),
                    )
                }
            },
            (AttachStage::Size, AttachReply::Size(rect)) => {
                let size = match rect {
                    None => None,
                    Some(rect) => editor_size_from_rect(rect),
                };
                self.current_size = size;
                self.has_view = true;
                self.stage = AttachStage::Idle;
                AttachAction::Attached(size)
            },
            _ => AttachAction::Wait,
        }
    }

    /// Detaches the editor. Returns whether there is a view to remove, whose frame is then to be
    /// cleared.
    pub fn detach(&mut self) -> (remove: bool)
        ensures
            remove == old(self).has_view,
            *final(self) == (Vst3EditorSession {
                has_view: false,
                current_size: None,
                ..*old(self)
            }),
            *final(self) == old(self).detached(),
    {
        let remove = self.has_view;
        self.has_view = false;
        self.current_size = None;
        remove
    }

    /// This session, a resize that begins, and what that asks for first. Without a view there is
    /// nothing to ask.
    pub open spec fn resizing(self, size: EditorSize) -> (Resize, ResizeAction) {
        if self.has_view {
            (Resize { size, stage: ResizeStage::CanResize }, ResizeAction::AskCanResize)
        } else {
            (Resize { size, stage: ResizeStage::Done }, ResizeAction::Done(size))
        }
    }

    /// The end of a resize, with the rectangle that the view has then: its size holds from now
    /// on, or what was asked for if it has no area.
    pub open spec fn resized(self, resize: Resize, rect: ViewRect) -> (
        Vst3EditorSession,
        Resize,
        ResizeAction,
    ) {
        let accepted = match size_of_rect(rect) {
            Some(accepted) => accepted,
            None => resize.size,
        };
        (
            Vst3EditorSession { current_size: Some(accepted), ..self },
            Resize { stage: ResizeStage::Done, ..resize },
            ResizeAction::Done(accepted),
        )
    }

    /// This session and a resize after an answer of the view, and what is asked next. A view that
    /// can be resized first constrains the rectangle and then takes it.
    pub open spec fn after_resize(self, resize: Resize, reply: ResizeReply) -> (
        Vst3EditorSession,
        Resize,
        ResizeAction,
    ) {
        match (resize.stage, reply) {
            (ResizeStage::CanResize, ResizeReply::CanResize(true)) => (
                self,
                Resize { stage: ResizeStage::Constrain, ..resize },
                ResizeAction::Constrain(rect_of_size(resize.size)),
            ),
            (ResizeStage::CanResize, ResizeReply::CanResize(false)) => self.resized(
                resize,
                rect_of_size(resize.size),
            ),
            (ResizeStage::Constrain, ResizeReply::Constrained(rect)) => (
                self,
                Resize { stage: ResizeStage::Apply, ..resize },
                ResizeAction::Apply(rect),
            ),
            (ResizeStage::Apply, ResizeReply::Applied(rect)) => self.resized(resize, rect),
            _ => (self, resize, ResizeAction::Wait),
        }
    }

    /// Starts to resize the editor.
    pub fn resize(&self, size: EditorSize) -> (started: (Resize, ResizeAction))
        ensures
            started == self.resizing(size),
    {
        if self.has_view {
            (Resize { size, stage: ResizeStage::CanResize }, ResizeAction::AskCanResize)
        } else {
            (Resize { size, stage: ResizeStage::Done }, ResizeAction::Done(size))
        }
    }

    /// Ends a resize with the rectangle that the view has then.
    fn finish_resize(&mut self, resize: &mut Resize, rect: ViewRect) -> (action: ResizeAction)
        ensures
            (*final(self), *final(resize), action) == old(self).resized(*old(resize), rect),
    {
        let accepted = match editor_size_from_rect(rect) {
            Some(accepted) => accepted,
            None => resize.size,
        };
        self.current_size = Some(accepted);
        resize.stage = ResizeStage::Done;
        ResizeAction::Done(accepted)
    }

    /// Takes the view's answer in the course of a resize.
    pub fn resume_resize(&mut self, resize: &mut Resize, reply: ResizeReply) -> (action:
        ResizeAction)
        ensures
            (*final(self), *final(resize), action) == old(self).after_resize(*old(resize), reply),
    {
        match (resize.stage, reply) {
            (ResizeStage::CanResize, ResizeReply::CanResize(can_resize)) => {
                let rect = rect_from_editor_size(resize.size);
                if can_resize {
                    resize.stage = ResizeStage::Constrain;
                    ResizeAction::Constrain(rect)
                } else {
                    self.finish_resize(resize, rect)
                }
            },
            (ResizeStage::Constrain, ResizeReply::Constrained(rect)) => {
                resize.stage = ResizeStage::Apply;
                ResizeAction::Apply(rect)
            },
            (ResizeStage::Apply, ResizeReply::Applied(rect)) => self.finish_resize(resize, rect),
            _ => ResizeAction::Wait,
        }
    }
}

/// How a view answers while it is resized.
pub struct ResizingView {
    pub can_resize: bool,
    pub constrain: spec_fn(ViewRect) -> ViewRect,
    pub apply: spec_fn(ViewRect) -> ViewRect,
}

impl ResizingView {
    /// The answer to a request.
    pub open spec fn reply(self, action: ResizeAction) -> ResizeReply {
        match action {
            ResizeAction::Constrain(rect) => ResizeReply::Constrained((self.constrain)(rect)),
            ResizeAction::Apply(rect) => ResizeReply::Applied((self.apply)(rect)),
            _ => ResizeReply::CanResize(self.can_resize),
        }
    }

    /// A resize after a number of answers, up to its end.
    pub open spec fn run(
        self,
        turn: (Vst3EditorSession, Resize, ResizeAction),
        answers: nat,
    ) -> (Vst3EditorSession, Resize, ResizeAction)
        decreases answers,
    {
        if answers == 0 || turn.2 is Done {
            turn
        } else {
            self.run(turn.0.after_resize(turn.1, self.reply(turn.2)), (answers - 1) as nat)
        }
    }
}

/// A resize ends after at most three answers. Without a view, or with one that cannot be resized,
/// the size is what was asked for; otherwise it is that of the rectangle that the view made of the
/// constrained offer, if that has an area. With a view it is the current size from then on, and
/// without one the session stays as it was.
pub proof fn law_resize_outcome(session: Vst3EditorSession, size: EditorSize, view: ResizingView)
    ensures
        ({
            let (resize, action) = session.resizing(size);
            let end = view.run((session, resize, action), 3);
            let rect = (view.apply)((view.constrain)(rect_of_size(size)));
            let accepted = match size_of_rect(rect) {
                Some(accepted) if session.has_view && view.can_resize => accepted,
                _ => size,
            };
            &&& end.2 == ResizeAction::Done(accepted)
            &&& end.0 == if session.has_view {
                Vst3EditorSession { current_size: Some(accepted), ..session }
            } else {
                session
            }
        }),
{
    reveal_with_fuel(ResizingView::run, 4);
    if size.width > 0 && size.height > 0 {
        law_size_survives_rect(size);
    }
}

/// Every size with an area survives being made a rectangle, even one that wraps around.
pub proof fn law_size_survives_rect(size: EditorSize)
    requires
        size.width > 0,
        size.height > 0,
    ensures
        size_of_rect(rect_of_size(size)) == Some(size),
{
}

/// A size that a plugin requests again is not reported again, and the current size is always the
/// last that was requested.
pub proof fn law_repeated_request_is_ignored(current: Option<EditorSize>, size: EditorSize)
    ensures
        ({
            let first = changed_request(current, Some(size));
            let second = changed_request(first.1, Some(size));
            &&& second.0 is None
            &&& first.1 == Some(size)
            &&& second.1 == Some(size)
        }),
{
}

/// What a plugin answers while its editor is attached.
pub struct PluginEditor {
    pub view: bool,
    pub frame: bool,
    pub supports: spec_fn(PlatformType) -> bool,
    pub attaches: bool,
    pub rect: Option<ViewRect>,
}

impl PluginEditor {
    /// The answer to a request.
    pub open spec fn reply(self, request: AttachRequest) -> AttachReply {
        match request {
            AttachRequest::CreateView => AttachReply::View(self.view),
            AttachRequest::MakeFrame => AttachReply::Frame(self.frame),
            AttachRequest::AskSupport(platform) => AttachReply::Support(
                (self.supports)(platform),
            ),
            AttachRequest::Attach(_) => AttachReply::Attached(self.attaches),
            _ => AttachReply::Size(self.rect),
        }
    }

    /// A session after a number of answers, up to the end of attaching.
    pub open spec fn run(
        self,
        turn: (Vst3EditorSession, AttachRequest),
        answers: nat,
    ) -> (Vst3EditorSession, AttachRequest)
        decreases answers,
    {
        if answers == 0 || turn.1 is Attached || turn.1 is Failed {
            turn
        } else {
            self.run(turn.0.after(self.reply(turn.1)), (answers - 1) as nat)
        }
    }
}

/// An editor is attached exactly when its window is of a known system, the plugin has a
/// controller and gives a view that supports the window's platform type and attaches; then its
/// size is the view's. Otherwise the session keeps its view and size, and the failure is that of
/// the window, that of attaching, or that the editor is unsupported.
pub proof fn law_attach_outcome(
    session: Vst3EditorSession,
    parent: ParentWindow,
    has_controller: bool,
    plugin: PluginEditor,
)
    ensures
        ({
            let end = plugin.run(session.attaching(parent, has_controller), 5);
            match platform_of(parent) {
                Err(failure) => end.1 == AttachRequest::Failed(failure),
                Ok(platform) => {
                    let ready = has_controller && plugin.view && plugin.frame
                        && (plugin.supports)(platform);
                    if ready && plugin.attaches {
                        &&& end.1 is Attached
                        &&& end.0.has_view
                        &&& end.0.current_size == match plugin.rect {
                            None => None,
                            Some(rect) => size_of_rect(rect),
                        }
                    } else {
                        &&& end.1 == AttachRequest::Failed(
                            if ready {
                                EditorFailure::Backend("VST3 editor attach failed"@)
                            } else {
                                EditorFailure::Unsupported
                            },
                        )
                        &&& end.0.has_view == session.has_view
                        &&& end.0.current_size == session.current_size
                    }
                },
            }
        }),
{
    reveal_with_fuel(PluginEditor::run, 6);
}

/// The size of a rectangle is the distance between its edges: right from left, and bottom from
/// top. One whose sides have no length has no size. Only a distance that does not fit into 32
/// bits, or is negative, is told otherwise: as the largest, or counted down from two to the 32nd.
pub proof fn law_size_is_the_distance_of_edges(rect: ViewRect)
    ensures
        ({
            let width = rect.right - rect.left;
            let height = rect.bottom - rect.top;
            &&& 0 < width <= i32::MAX && 0 < height <= i32::MAX ==> size_of_rect(rect) == Some(
                EditorSize { width: width as u32, height: height as u32 },
            )
            &&& width == 0 || height == 0 ==> size_of_rect(rect) is None
            &&& width != 0 && height != 0 ==> size_of_rect(rect) is Some
            &&& width > i32::MAX && height != 0 ==> size_of_rect(rect)->0.width == i32::MAX
            &&& height > i32::MAX && width != 0 ==> size_of_rect(rect)->0.height == i32::MAX
            &&& i32::MIN <= width < 0 && height != 0 ==> size_of_rect(rect)->0.width == width
                + 0x1_0000_0000
            &&& i32::MIN <= height < 0 && width != 0 ==> size_of_rect(rect)->0.height == height
                + 0x1_0000_0000
        }),
{
}

/// The rectangle of a size stands at the origin and is as wide and as high as the size.
pub proof fn law_rect_stands_at_the_origin(size: EditorSize)
    ensures
        rect_of_size(size).left == 0,
        rect_of_size(size).top == 0,
        size.width <= i32::MAX ==> rect_of_size(size).right == size.width,
        size.height <= i32::MAX ==> rect_of_size(size).bottom == size.height,
        size.width > i32::MAX ==> rect_of_size(size).right == size.width - 0x1_0000_0000,
        size.height > i32::MAX ==> rect_of_size(size).bottom == size.height - 0x1_0000_0000,
{
}

/// A size that a plugin requests and the host does not know of is reported as it is, and is the
/// current one from then on; without a request nothing is reported and nothing changes.
pub proof fn law_new_request_is_reported(current: Option<EditorSize>, size: EditorSize)
    ensures
        current != Some(size) ==> changed_request(current, Some(size)) == (Some(size), Some(size)),
        current == Some(size) ==> changed_request(current, Some(size)) == (
            None::<EditorSize>,
            current,
        ),
        changed_request(current, None) == (None::<EditorSize>, current),
{
}

/// The request that waits is the last one with an area; one without an area is ignored.
pub proof fn law_last_request_waits(waiting: Option<EditorSize>, rect: ViewRect)
    ensures
        rect.left < rect.right <= rect.left + i32::MAX && rect.top < rect.bottom <= rect.top
            + i32::MAX ==> noted(waiting, Some(rect)) == Some(
            EditorSize {
                width: (rect.right - rect.left) as u32,
                height: (rect.bottom - rect.top) as u32,
            },
        ),
        rect.left == rect.right || rect.top == rect.bottom ==> noted(waiting, Some(rect))
            == waiting,
        noted(waiting, None) == waiting,
{
}

/// Each window system has its platform type: AppKit views, Win32 windows, windows of the X server
/// through either library, and Wayland surfaces; any other window is refused by name.
pub proof fn law_each_window_has_its_platform(window: String)
    ensures
        platform_of(ParentWindow::AppKit) == Ok::<PlatformType, EditorFailure>(
            PlatformType::NsView,
        ),
        platform_of(ParentWindow::Win32) == Ok::<PlatformType, EditorFailure>(PlatformType::Hwnd),
        platform_of(ParentWindow::Xlib) == Ok::<PlatformType, EditorFailure>(
            PlatformType::X11EmbedWindowId,
        ),
        platform_of(ParentWindow::Xcb) == platform_of(ParentWindow::Xlib),
        platform_of(ParentWindow::Wayland) == Ok::<PlatformType, EditorFailure>(
            PlatformType::WaylandSurfaceId,
        ),
        platform_of(ParentWindow::Other(window)) matches Err(EditorFailure::HostUnavailable(text))
            && text == "unsupported VST3 editor parent: "@ + window@,
{
}

/// All through attaching, the view is asked about and attached as the platform type of the window,
/// and what is reported at the end is the size that the session has then.
pub proof fn law_view_is_attached_as_its_window(
    session: Vst3EditorSession,
    parent: ParentWindow,
    plugin: PluginEditor,
)
    requires
        platform_of(parent) is Ok,
        plugin.view,
        plugin.frame,
        (plugin.supports)(platform_of(parent)->Ok_0),
        plugin.attaches,
    ensures
        ({
            let start = session.attaching(parent, true);
            let platform = platform_of(parent)->Ok_0;
            let end = plugin.run(start, 5);
            &&& start.1 is CreateView
            &&& plugin.run(start, 1).1 is MakeFrame
            &&& plugin.run(start, 2).1 == AttachRequest::AskSupport(platform)
            &&& plugin.run(start, 3).1 == AttachRequest::Attach(platform)
            &&& plugin.run(start, 4).1 is ReadSize
            &&& end.1 == AttachRequest::Attached(end.0.current_size)
            &&& plugin.rect is None ==> end.0.current_size is None
            &&& plugin.rect matches Some(rect) ==> end.0.current_size == size_of_rect(rect)
            &&& end.0.has_view
        }),
{
    reveal_with_fuel(PluginEditor::run, 6);
}

/// A session that was detached has no view and no size, so that nothing is left to be removed.
pub proof fn law_detached_session_has_no_view(session: Vst3EditorSession)
    ensures
        !session.detached().has_view,
        session.detached().current_size is None,
        session.detached().stage == session.stage,
        session.detached().detached() == session.detached(),
{
}

/// A rectangle is shown by its edges and sides, each as its own number.
pub proof fn law_rect_text_tells_edges_and_sides(rect: ViewRect)
    ensures
        rect_text(rect) == "left="@ + signed_decimal_text(rect.left as int) + " top="@
            + signed_decimal_text(rect.top as int) + " right="@ + signed_decimal_text(
            rect.right as int,
        ) + " bottom="@ + signed_decimal_text(rect.bottom as int) + " w="@ + signed_decimal_text(
            rect.right - rect.left,
        ) + " h="@ + signed_decimal_text(rect.bottom - rect.top),
{
}

/// An answer to something else than what was asked for last changes nothing, while an editor is
/// attached and while it is resized.
pub proof fn law_odd_answer_changes_nothing(
    session: Vst3EditorSession,
    reply: AttachReply,
    resize: Resize,
    answer: ResizeReply,
)
    requires
        match session.stage {
            AttachStage::Idle => true,
            AttachStage::View(_) => !(reply is View),
            AttachStage::Frame(_) => !(reply is Frame),
            AttachStage::Support(_) => !(reply is Support),
            AttachStage::Attached => !(reply is Attached),
            AttachStage::Size => !(reply is Size),
        },
        match resize.stage {
            ResizeStage::CanResize => !(answer is CanResize),
            ResizeStage::Constrain => !(answer is Constrained),
            ResizeStage::Apply => !(answer is Applied),
            ResizeStage::Done => true,
        },
    ensures
        session.after(reply) == (session, AttachRequest::Wait),
        session.after_resize(resize, answer) == (session, resize, ResizeAction::Wait),
{
}

/// Resizing changes nothing about a session but its size, and that not before its end.
pub proof fn law_resized_view_keeps_its_session(
    session: Vst3EditorSession,
    resize: Resize,
    answer: ResizeReply,
)
    ensures
        session.after_resize(resize, answer).0.has_view == session.has_view,
        session.after_resize(resize, answer).0.stage == session.stage,
        session.after_resize(resize, answer).1.size == resize.size,
        !(session.after_resize(resize, answer).2 is Done) ==> session.after_resize(
            resize,
            answer,
        ).0 == session,
{
}

} // verus!
