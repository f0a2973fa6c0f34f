//! Playing, showing, setting up and taking down VST3 plugins.

use std::path::{Path, PathBuf};

use lilypalooza_plugins::registry::{EditorSize, Role};
use lilypalooza_plugins::vst3::editor::{
    changed_editor_size_request, editor_size_from_rect, format_view_rect, rect_from_editor_size,
    rect_has_sides, vst3_parent_for_parent, AttachAction, AttachReply, EditorError, ParentWindow,
    PlatformType, RequestedSize, ResizeAction, ResizeReply, ViewRect, Vst3EditorSession,
};
use lilypalooza_plugins::vst3::midi::{
    event_at, event_count, vst3_note_off_event, vst3_note_on_event, vst3_poly_pressure_event,
    MidiEvent, NoteEvent, NoteEventKind, Vst3MidiEventQueue,
};
use lilypalooza_plugins::vst3::runtime::{
    audio_setup_for, bus_indices, instantiate, AudioSetup, BlockPlan, BusGroup, RuntimeSetup,
    RuntimeState, SetupAction, SetupReply, TeardownCall,
};
use lilypalooza_plugins::vst3::{Vst3PluginMetadata, Vst3ProbeError};

fn note_on(channel: u8, note: u8, velocity: u8) -> MidiEvent {
    MidiEvent::NoteOn {
        channel,
        note,
        velocity,
    }
}

fn event(kind: NoteEventKind, channel: i16, pitch: i16, level: u8) -> NoteEvent {
    NoteEvent {
        kind,
        channel,
        pitch,
        level,
        note_id: -1,
    }
}

#[test]
fn note_events_keep_the_low_channel_bits() {
    assert_eq!(
        vst3_note_on_event(0x93, 60, 100),
        event(NoteEventKind::NoteOn, 3, 60, 100)
    );
    assert_eq!(
        vst3_note_off_event(15, 127, 64),
        event(NoteEventKind::NoteOff, 15, 127, 64)
    );
    assert_eq!(
        vst3_poly_pressure_event(16, 200, 5),
        event(NoteEventKind::PolyPressure, 0, 200, 5)
    );
}

#[test]
fn queue_turns_midi_into_note_events() {
    let mut queue = Vst3MidiEventQueue::new();
    queue.push(note_on(1, 60, 100));
    queue.push(note_on(1, 60, 0));
    queue.push(MidiEvent::NoteOff {
        channel: 2,
        note: 61,
        velocity: 30,
    });
    queue.push(MidiEvent::PolyPressure {
        channel: 2,
        note: 62,
        pressure: 40,
    });
    queue.push(MidiEvent::Other);

    assert_eq!(
        queue.take(),
        vec![
            event(NoteEventKind::NoteOn, 1, 60, 100),
            event(NoteEventKind::NoteOff, 1, 60, 0),
            event(NoteEventKind::NoteOff, 2, 61, 30),
            event(NoteEventKind::PolyPressure, 2, 62, 40),
        ]
    );
    assert!(queue.take().is_empty());
}

#[test]
fn all_notes_off_releases_one_channel() {
    let mut queue = Vst3MidiEventQueue::new();
    queue.push(note_on(1, 64, 1));
    queue.push(note_on(17, 60, 1));
    queue.push(note_on(2, 60, 1));
    queue.push(note_on(1, 61, 1));
    queue.push(note_on(1, 61, 0));
    queue.take();

    queue.push(MidiEvent::AllNotesOff { channel: 33 });
    assert_eq!(
        queue.take(),
        vec![
            event(NoteEventKind::NoteOff, 1, 60, 0),
            event(NoteEventKind::NoteOff, 1, 64, 0),
        ]
    );
    queue.push(MidiEvent::AllSoundOff { channel: 1 });
    assert!(queue.take().is_empty());
    queue.push(MidiEvent::AllSoundOff { channel: 2 });
    assert_eq!(queue.take(), vec![event(NoteEventKind::NoteOff, 2, 60, 0)]);
}

#[test]
fn panic_releases_every_note_once() {
    let mut queue = Vst3MidiEventQueue::new();
    queue.push(note_on(15, 127, 1));
    queue.push(note_on(0, 0, 1));
    queue.take();

    queue.push_panic();
    queue.push_panic();

    assert_eq!(
        queue.take(),
        vec![
            event(NoteEventKind::NoteOff, 0, 0, 0),
            event(NoteEventKind::NoteOff, 15, 127, 0),
        ]
    );
}

#[test]
fn keys_beyond_the_keyboard_are_told() {
    assert!(note_on(0, 127, 1).playable());
    assert!(!note_on(0, 128, 1).playable());
    assert!(MidiEvent::PolyPressure {
        channel: 0,
        note: 200,
        pressure: 1
    }
    .playable());
}

#[test]
fn event_lists_answer_within_bounds() {
    let events = vec![vst3_note_on_event(0, 1, 2), vst3_note_off_event(0, 1, 0)];
    assert_eq!(event_count(&events), 2);
    assert_eq!(event_at(&events, 1), Some(events[1]));
    assert_eq!(event_at(&events, 2), None);
    assert_eq!(event_at(&events, -1), None);
    assert_eq!(event_at(&Vec::new(), 0), None);
}

fn size(width: u32, height: u32) -> EditorSize {
    EditorSize { width, height }
}

fn rect(left: i32, top: i32, right: i32, bottom: i32) -> ViewRect {
    ViewRect {
        left,
        top,
        right,
        bottom,
    }
}

#[test]
fn unchanged_vst3_editor_size_request_is_ignored() {
    let mut current = Some(EditorSize {
        width: 640,
        height: 480,
    });

    assert_eq!(
        changed_editor_size_request(
            &mut current,
            Some(EditorSize {
                width: 640,
                height: 480,
            })
        ),
        None
    );
    assert_eq!(
        changed_editor_size_request(
            &mut current,
            Some(EditorSize {
                width: 800,
                height: 600,
            })
        ),
        Some(EditorSize {
            width: 800,
            height: 600,
        })
    );
    assert_eq!(
        current,
        Some(EditorSize {
            width: 800,
            height: 600,
        })
    );
    assert_eq!(changed_editor_size_request(&mut current, None), None);
    assert_eq!(current, Some(size(800, 600)));
}

#[test]
fn rectangles_and_sizes_convert() {
    assert_eq!(
        editor_size_from_rect(rect(10, 20, 110, 220)),
        Some(size(100, 200))
    );
    assert_eq!(editor_size_from_rect(rect(0, 0, 0, 5)), None);
    assert_eq!(editor_size_from_rect(rect(0, 0, 5, 0)), None);
    assert_eq!(
        editor_size_from_rect(rect(1, 0, 0, 1)),
        Some(size(u32::MAX, 1))
    );
    assert_eq!(
        editor_size_from_rect(rect(i32::MIN, 0, i32::MAX, 1)),
        Some(size(i32::MAX as u32, 1))
    );
    assert_eq!(rect_from_editor_size(size(3, 4)), rect(0, 0, 3, 4));
    assert_eq!(
        rect_from_editor_size(size(u32::MAX, 1)),
        rect(0, 0, -1, 1)
    );
    for wide in [1, 640, 0x7fff_ffff, 0x8000_0000, u32::MAX] {
        assert_eq!(
            editor_size_from_rect(rect_from_editor_size(size(wide, 1))),
            Some(size(wide, 1))
        );
    }
}

#[test]
fn rectangles_are_printed_with_their_sides() {
    assert_eq!(
        format_view_rect(rect(-5, 10, 20, 7)),
        "left=-5 top=10 right=20 bottom=7 w=25 h=-3"
    );
    assert!(rect_has_sides(rect(0, 0, i32::MAX, 0)));
    assert!(!rect_has_sides(rect(-1, 0, i32::MAX, 0)));
}

#[test]
fn windows_have_platform_types() {
    let cases = [
        (ParentWindow::AppKit, PlatformType::NsView),
        (ParentWindow::Win32, PlatformType::Hwnd),
        (ParentWindow::Xlib, PlatformType::X11EmbedWindowId),
        (ParentWindow::Xcb, PlatformType::X11EmbedWindowId),
        (ParentWindow::Wayland, PlatformType::WaylandSurfaceId),
    ];
    for (parent, platform) in cases {
        assert_eq!(vst3_parent_for_parent(&parent), Ok(platform));
    }
    assert_eq!(
        vst3_parent_for_parent(&ParentWindow::Other("Drm(1)".to_string())),
        Err(EditorError::HostUnavailable(
            "unsupported VST3 editor parent: Drm(1)".to_string()
        ))
    );
}

/// A session that has come as far as the question of support.
fn at_support() -> Vst3EditorSession {
    let mut session = Vst3EditorSession::new();
    assert!(matches!(
        session.attach(&ParentWindow::Xlib, true),
        AttachAction::CreateView
    ));
    assert!(matches!(
        session.resume(AttachReply::View(true)),
        AttachAction::MakeFrame
    ));
    assert!(matches!(
        session.resume(AttachReply::Frame(true)),
        AttachAction::AskSupport(PlatformType::X11EmbedWindowId)
    ));
    session
}

fn attached(rect: Option<ViewRect>) -> Vst3EditorSession {
    let mut session = at_support();
    assert!(matches!(
        session.resume(AttachReply::Support(true)),
        AttachAction::Attach(PlatformType::X11EmbedWindowId)
    ));
    assert!(matches!(
        session.resume(AttachReply::Attached(true)),
        AttachAction::ReadSize
    ));
    assert!(matches!(
        session.resume(AttachReply::Size(rect)),
        AttachAction::Attached(_)
    ));
    session
}

#[test]
fn attached_editor_has_the_size_of_its_view() {
    assert_eq!(Vst3EditorSession::new().initial_size(), None);
    assert_eq!(
        attached(Some(rect(0, 0, 300, 200))).initial_size(),
        Some(size(300, 200))
    );
    assert_eq!(attached(None).initial_size(), None);
    assert_eq!(attached(Some(rect(0, 0, 0, 0))).initial_size(), None);
}

#[test]
fn attaching_can_fail_at_every_step() {
    let unsupported =
        |action| matches!(action, AttachAction::Failed(EditorError::Unsupported));
    let mut session = Vst3EditorSession::new();
    assert!(matches!(
        session.attach(&ParentWindow::Other("Web".to_string()), true),
        AttachAction::Failed(EditorError::HostUnavailable(_))
    ));
    assert!(unsupported(session.attach(&ParentWindow::Xcb, false)));
    assert!(matches!(
        session.resume(AttachReply::View(true)),
        AttachAction::Wait
    ));
    session.attach(&ParentWindow::Xcb, true);
    assert!(unsupported(session.resume(AttachReply::View(false))));
    session.attach(&ParentWindow::Xcb, true);
    session.resume(AttachReply::View(true));
    assert!(unsupported(session.resume(AttachReply::Frame(false))));
    assert!(unsupported(at_support().resume(AttachReply::Support(false))));
    let mut session = at_support();
    session.resume(AttachReply::Support(true));
    assert!(matches!(
        session.resume(AttachReply::Attached(false)),
        AttachAction::Failed(EditorError::Backend(text)) if text == "VST3 editor attach failed"
    ));
    assert!(!session.has_view);
}

#[test]
fn detached_editor_has_no_view_and_no_size() {
    let mut session = attached(Some(rect(0, 0, 300, 200)));
    assert!(session.detach());
    assert!(!session.detach());
    assert_eq!(session.initial_size(), None);
}

#[test]
fn resizing_asks_the_view() {
    let session = Vst3EditorSession::new();
    assert_eq!(session.resize(size(5, 6)).1, ResizeAction::Done(size(5, 6)));
    assert_eq!(session.initial_size(), None);

    let mut session = attached(Some(rect(0, 0, 300, 200)));
    let (mut resize, action) = session.resize(size(5, 6));
    assert_eq!(action, ResizeAction::AskCanResize);
    assert_eq!(
        session.resume_resize(&mut resize, ResizeReply::Applied(rect(0, 0, 1, 1))),
        ResizeAction::Wait
    );
    assert_eq!(
        session.resume_resize(&mut resize, ResizeReply::CanResize(true)),
        ResizeAction::Constrain(rect(0, 0, 5, 6))
    );
    assert_eq!(
        session.resume_resize(&mut resize, ResizeReply::Constrained(rect(0, 0, 7, 7))),
        ResizeAction::Apply(rect(0, 0, 7, 7))
    );
    assert_eq!(session.initial_size(), Some(size(300, 200)));
    assert_eq!(
        session.resume_resize(&mut resize, ResizeReply::Applied(rect(0, 0, 8, 9))),
        ResizeAction::Done(size(8, 9))
    );
    assert_eq!(session.initial_size(), Some(size(8, 9)));
    assert_eq!(
        session.resume_resize(&mut resize, ResizeReply::CanResize(true)),
        ResizeAction::Wait
    );
}

#[test]
fn refused_resize_keeps_what_was_asked_for() {
    let mut session = attached(Some(rect(0, 0, 300, 200)));
    let (mut resize, _) = session.resize(size(5, 6));
    assert_eq!(
        session.resume_resize(&mut resize, ResizeReply::CanResize(false)),
        ResizeAction::Done(size(5, 6))
    );
    assert_eq!(session.initial_size(), Some(size(5, 6)));

    let (mut resize, _) = session.resize(size(7, 8));
    session.resume_resize(&mut resize, ResizeReply::CanResize(true));
    session.resume_resize(&mut resize, ResizeReply::Constrained(rect(0, 0, 7, 8)));
    assert_eq!(
        session.resume_resize(&mut resize, ResizeReply::Applied(rect(0, 0, 0, 9))),
        ResizeAction::Done(size(7, 8))
    );
    assert_eq!(session.initial_size(), Some(size(7, 8)));
}

#[test]
fn requested_sizes_are_taken_once() {
    let mut host = RequestedSize::new();
    let mut session = attached(Some(rect(0, 0, 300, 200)));
    assert!(!host.resize_view(None));
    assert_eq!(host.take_requested_size(), None);

    assert!(host.resize_view(Some(rect(0, 0, 400, 300))));
    assert!(host.resize_view(Some(rect(0, 0, 0, 0))));
    assert_eq!(session.requested_size(&mut host), Some(size(400, 300)));
    assert_eq!(session.requested_size(&mut host), None);
    host.resize_view(Some(rect(0, 0, 400, 300)));
    assert_eq!(session.requested_size(&mut host), None);
    assert_eq!(session.initial_size(), Some(size(400, 300)));
}

fn metadata(class_id: &str) -> Vst3PluginMetadata {
    Vst3PluginMetadata {
        processor_id: "vst3:/Plug/Test.vst3#0".to_string(),
        class_id: class_id.to_string(),
        name: "Test".to_string(),
        vendor: None,
        version: None,
        category: None,
        role: Role::Effect,
        path: PathBuf::from("/Plug/Test.vst3"),
        library_path: PathBuf::from("/Plug/Test.so"),
    }
}

const CLASS_ID: &str = "00112233445566778899aabbccddeeff";

#[test]
fn audio_setup_never_has_an_empty_block() {
    assert_eq!(
        audio_setup_for(Role::Effect, 44_100, 512),
        AudioSetup {
            input_count: 1,
            max_samples_per_block: 512,
            sample_rate: 44_100,
        }
    );
    assert_eq!(
        audio_setup_for(Role::Instrument, 0, 0),
        AudioSetup {
            input_count: 0,
            max_samples_per_block: 1,
            sample_rate: 1,
        }
    );
    assert_eq!(bus_indices(3), vec![0, 1, 2]);
    assert!(bus_indices(-1).is_empty());
}

/// A setup that has come as far as the question for the controller.
fn at_controller() -> RuntimeSetup {
    let (mut setup, action) = instantiate(&metadata(CLASS_ID), 48_000, 256, Role::Instrument);
    assert!(matches!(
        action,
        SetupAction::LoadModule { path, library_path }
            if path == Path::new("/Plug/Test.vst3") && library_path == Path::new("/Plug/Test.so")
    ));
    assert!(setup.ready_for(&SetupReply::Module(Ok(()))));
    assert!(matches!(
        setup.resume(SetupReply::Module(Ok(()))),
        SetupAction::MakeHost
    ));
    assert!(matches!(
        setup.resume(SetupReply::Answer(true)),
        SetupAction::CreateComponent(class_id) if class_id[15] == 0xff
    ));
    assert!(matches!(
        setup.resume(SetupReply::Answer(true)),
        SetupAction::InitializeComponent
    ));
    assert!(matches!(
        setup.resume(SetupReply::Answer(true)),
        SetupAction::GetProcessor
    ));
    assert!(matches!(
        setup.resume(SetupReply::Answer(true)),
        SetupAction::GetController
    ));
    setup
}

/// A setup with a connected controller that has come as far as the processor's setup.
fn at_processing() -> RuntimeSetup {
    let mut setup = at_controller();
    assert!(matches!(
        setup.resume(SetupReply::Answer(false)),
        SetupAction::GetControllerClassId
    ));
    assert!(matches!(
        setup.resume(SetupReply::ClassId(Some([7; 16]))),
        SetupAction::CreateController(class_id) if class_id == [7; 16]
    ));
    assert!(matches!(
        setup.resume(SetupReply::Answer(true)),
        SetupAction::MakeControllerHost
    ));
    assert!(matches!(
        setup.resume(SetupReply::Answer(true)),
        SetupAction::InitializeController
    ));
    assert!(matches!(
        setup.resume(SetupReply::Answer(true)),
        SetupAction::SetComponentHandler
    ));
    assert!(matches!(
        setup.resume(SetupReply::Done),
        SetupAction::GetConnections
    ));
    assert!(matches!(
        setup.resume(SetupReply::Connections {
            component: true,
            controller: true,
        }),
        SetupAction::Connect
    ));
    assert!(matches!(
        setup.resume(SetupReply::Done),
        SetupAction::SetBusArrangements(0)
    ));
    for group in [
        BusGroup::AudioInputs,
        BusGroup::AudioOutputs,
        BusGroup::EventInputs,
    ] {
        assert!(matches!(
            setup.resume(SetupReply::Done),
            SetupAction::ActivateBuses(buses) if buses == group
        ));
    }
    assert!(matches!(
        setup.resume(SetupReply::Done),
        SetupAction::SetupProcessing(audio)
            if audio.max_samples_per_block == 256 && audio.sample_rate == 48_000
    ));
    setup
}

fn failure(action: SetupAction) -> (String, Option<RuntimeState>) {
    match action {
        SetupAction::Failed { error, instance } => (error.message(), instance),
        _ => panic!("expected a failure"),
    }
}

#[test]
fn plugin_is_set_up_and_taken_down() {
    let mut setup = at_processing();
    assert!(matches!(
        setup.resume(SetupReply::Answer(true)),
        SetupAction::SetActive
    ));
    assert!(matches!(
        setup.resume(SetupReply::Answer(true)),
        SetupAction::SetProcessing
    ));
    let SetupAction::Ready(mut state) = setup.resume(SetupReply::Answer(true)) else {
        panic!("expected a plugin");
    };
    assert!(matches!(
        setup.resume(SetupReply::Answer(true)),
        SetupAction::Wait
    ));

    assert_eq!(
        state.process_block(64, 32, true),
        Some(BlockPlan {
            num_samples: 32,
            num_inputs: 1,
            num_outputs: 1,
        })
    );
    assert_eq!(
        state.process_block(16, 32, false),
        Some(BlockPlan {
            num_samples: 16,
            num_inputs: 0,
            num_outputs: 1,
        })
    );
    assert_eq!(
        state.prepare_destroy(),
        vec![
            TeardownCall::StopProcessing,
            TeardownCall::Deactivate,
            TeardownCall::DisconnectComponent,
            TeardownCall::DisconnectController,
            TeardownCall::TerminateController,
            TeardownCall::TerminateComponent,
        ]
    );
    assert!(state.prepare_destroy().is_empty());
    assert_eq!(state.process_block(16, 32, false), None);
}

#[test]
fn plugin_without_controller_is_taken_down_shortly() {
    let mut setup = at_controller();
    setup.resume(SetupReply::Answer(false));
    assert!(matches!(
        setup.resume(SetupReply::ClassId(None)),
        SetupAction::GetConnections
    ));
    assert!(matches!(
        setup.resume(SetupReply::Connections {
            component: true,
            controller: true,
        }),
        SetupAction::SetBusArrangements(0)
    ));
    for _ in 0..4 {
        setup.resume(SetupReply::Done);
    }
    let (message, instance) = failure(setup.resume(SetupReply::Answer(false)));
    assert_eq!(message, "VST3 processor setup failed");
    let mut state = instance.expect("instance");
    assert_eq!(
        state.prepare_destroy(),
        vec![TeardownCall::TerminateComponent]
    );
}

#[test]
fn activation_failures_leave_what_is_up() {
    let mut setup = at_processing();
    setup.resume(SetupReply::Answer(true));
    let (message, instance) = failure(setup.resume(SetupReply::Answer(false)));
    assert_eq!(message, "VST3 processor activation failed");
    assert!(!instance.expect("instance").active);

    let mut setup = at_processing();
    setup.resume(SetupReply::Answer(true));
    setup.resume(SetupReply::Answer(true));
    let (message, instance) = failure(setup.resume(SetupReply::Answer(false)));
    assert_eq!(message, "VST3 processor activation failed");
    let mut state = instance.expect("instance");
    assert!(state.active && !state.processing);
    assert_eq!(state.prepare_destroy()[0], TeardownCall::Deactivate);
}

#[test]
fn setup_failures_before_there_is_an_instance() {
    let start = |class_id: &str| instantiate(&metadata(class_id), 48_000, 256, Role::Effect).0;
    let mut setup = start(CLASS_ID);
    assert_eq!(
        failure(setup.resume(SetupReply::Module(Err(Vst3ProbeError::MissingFactory)))),
        ("VST3 factory export returned null".to_string(), None)
    );
    let mut setup = start("xyz");
    assert_eq!(
        failure(setup.resume(SetupReply::Module(Ok(())))),
        ("invalid VST3 class id `xyz`".to_string(), None)
    );
    let messages = [
        "VST3 processor initialize failed",
        "VST3 factory failed to create processor",
        "VST3 processor initialize failed",
        "VST3 processor does not implement IAudioProcessor",
    ];
    for (successes, expected) in messages.iter().enumerate() {
        let mut setup = start(CLASS_ID);
        setup.resume(SetupReply::Module(Ok(())));
        for _ in 0..successes {
            setup.resume(SetupReply::Answer(true));
        }
        let (message, instance) = failure(setup.resume(SetupReply::Answer(false)));
        assert_eq!(message, *expected);
        assert!(instance.is_none());
    }
    for successes in 0..2 {
        let mut setup = at_controller();
        setup.resume(SetupReply::Answer(true));
        for _ in 0..successes {
            setup.resume(SetupReply::Answer(true));
        }
        let (message, instance) = failure(setup.resume(SetupReply::Answer(false)));
        assert_eq!(message, "VST3 processor initialize failed");
        assert!(instance.is_none());
    }
}
