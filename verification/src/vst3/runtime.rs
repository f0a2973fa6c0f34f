//! The life of a plugin instance: setting it up, one call at a time, playing blocks, and taking it
//! down again.

use std::path::PathBuf;
use vstd::prelude::*;
use vstd::seq_lib::lemma_seq_concat_contains_all_elements;
use vstd::string::*;

use super::class_info::{hex_to_tuid, splits_in_pairs, tuid_of, Tuid};
use super::{Vst3Error, Vst3PluginMetadata, Vst3ProbeError};
use crate::paths::buffer_bytes;
use crate::registry::Role;

verus! {

/// VST3 runtime error.
#[derive(Debug)]
pub enum Vst3RuntimeError {
    /// No plugin is registered under this id.
    MissingMetadata(String),
    /// The class id cannot be read as 16 pairs of hex digits.
    InvalidClassId(String),
    /// The factory made no processor.
    CreateProcessorFailed,
    /// The processor does not process audio.
    MissingAudioProcessor,
    /// The processor or its controller could not be initialized.
    InitializeFailed,
    /// The processor refused its setup.
    SetupFailed,
    /// The processor could not be activated.
    ActivateFailed,
    /// The module could not be loaded.
    Probe(Vst3ProbeError),
}

/// The contents of a [`Vst3RuntimeError`].
pub enum RuntimeFailure {
    MissingMetadata(Seq<char>),
    InvalidClassId(Seq<char>),
    CreateProcessorFailed,
    MissingAudioProcessor,
    InitializeFailed,
    SetupFailed,
    ActivateFailed,
    Probe(Vst3Error),
}

impl View for Vst3RuntimeError {
    type V = RuntimeFailure;

    open spec fn view(&self) -> RuntimeFailure {
        match self {
            Vst3RuntimeError::MissingMetadata(id) => RuntimeFailure::MissingMetadata(id@),
            Vst3RuntimeError::InvalidClassId(id) => RuntimeFailure::InvalidClassId(id@),
            Vst3RuntimeError::CreateProcessorFailed => RuntimeFailure::CreateProcessorFailed,
            Vst3RuntimeError::MissingAudioProcessor => RuntimeFailure::MissingAudioProcessor,
            Vst3RuntimeError::InitializeFailed => RuntimeFailure::InitializeFailed,
            Vst3RuntimeError::SetupFailed => RuntimeFailure::SetupFailed,
            Vst3RuntimeError::ActivateFailed => RuntimeFailure::ActivateFailed,
            Vst3RuntimeError::Probe(error) => RuntimeFailure::Probe(error@),
        }
    }
}

impl RuntimeFailure {
    /// The sentence that reports the error.
    pub open spec fn text(self) -> Seq<char> {
        match self {
            RuntimeFailure::MissingMetadata(id) => "VST3 plugin `"@ + id + "` is not registered"@,
            RuntimeFailure::InvalidClassId(id) => "invalid VST3 class id `"@ + id + "`"@,
            RuntimeFailure::CreateProcessorFailed => "VST3 factory failed to create processor"@,
            RuntimeFailure::MissingAudioProcessor =>
                "VST3 processor does not implement IAudioProcessor"@,
            RuntimeFailure::InitializeFailed => "VST3 processor initialize failed"@,
            RuntimeFailure::SetupFailed => "VST3 processor setup failed"@,
            RuntimeFailure::ActivateFailed => "VST3 processor activation failed"@,
            RuntimeFailure::Probe(error) => error.text(),
        }
    }
}

impl Vst3RuntimeError {
    /// Returns the sentence that reports the error.
    pub fn message(&self) -> (text: String)
        ensures
            text@ == self@.text(),
    {
        match self {
            Vst3RuntimeError::MissingMetadata(id) => {
                let mut text = "VST3 plugin `".to_owned();
                text.append(id.as_str());
                text.append("` is not registered");
                text
            },
            Vst3RuntimeError::InvalidClassId(id) => {
                let mut text = "invalid VST3 class id `".to_owned();
                text.append(id.as_str());
                text.append("`");
                text
            },
            Vst3RuntimeError::CreateProcessorFailed => {
                "VST3 factory failed to create processor".to_owned()
            },
            Vst3RuntimeError::MissingAudioProcessor => {
                "VST3 processor does not implement IAudioProcessor".to_owned()
            },
            Vst3RuntimeError::InitializeFailed => "VST3 processor initialize failed".to_owned(),
            Vst3RuntimeError::SetupFailed => "VST3 processor setup failed".to_owned(),
            Vst3RuntimeError::ActivateFailed => "VST3 processor activation failed".to_owned(),
            Vst3RuntimeError::Probe(error) => error.message(),
        }
    }
}

/// Which of a processor's buses are meant.
#[derive(Debug, Clone, Copy, PartialEq, Eq, Structural)]
pub enum BusGroup {
    /// Audio inputs.
    AudioInputs,
    /// Audio outputs.
    AudioOutputs,
    /// Event inputs.
    EventInputs,
}

/// What is up of a plugin instance.
#[derive(Debug, Clone, Copy, PartialEq, Eq, Structural)]
pub struct RuntimeState {
    /// Whether there is an edit controller.
    pub has_controller: bool,
    /// Whether processor and controller are connected.
    pub connected: bool,
    /// Whether the component is active.
    pub active: bool,
    /// Whether the processor is processing.
    pub processing: bool,
    /// Whether the instance was taken down.
    pub destroyed: bool,
}

/// One call that takes something down.
#[derive(Debug, Clone, Copy, PartialEq, Eq, Structural)]
pub enum TeardownCall {
    /// Stop processing.
    StopProcessing,
    /// Deactivate the component.
    Deactivate,
    /// Disconnect the component from the controller.
    DisconnectComponent,
    /// Disconnect the controller from the component.
    DisconnectController,
    /// Terminate the controller.
    TerminateController,
    /// Terminate the component.
    TerminateComponent,
}

/// One block to process.
#[derive(Debug, Clone, Copy, PartialEq, Eq, Structural)]
pub struct BlockPlan {
    /// Number of frames.
    pub num_samples: i32,
    /// Number of input buses.
    pub num_inputs: i32,
    /// Number of output buses.
    pub num_outputs: i32,
}

impl RuntimeState {
    /// The calls that take this instance down.
    pub open spec fn teardown(self) -> Seq<TeardownCall> {
        if self.destroyed {
            seq![]
        } else {
            (if self.processing {
                seq![TeardownCall::StopProcessing]
            } else {
                seq![]
            }) + (if self.active {
                seq![TeardownCall::Deactivate]
            } else {
                seq![]
            }) + (if self.connected {
                seq![TeardownCall::DisconnectComponent, TeardownCall::DisconnectController]
            } else {
                seq![]
            }) + (if self.has_controller {
                seq![TeardownCall::TerminateController]
            } else {
                seq![]
            }) + seq![TeardownCall::TerminateComponent]
        }
    }

    /// This instance after it was taken down.
    pub open spec fn down(self) -> RuntimeState {
        if self.destroyed {
            self
        } else {
            RuntimeState { active: false, processing: false, destroyed: true, ..self }
        }
    }

    /// Takes the instance down. Returns the calls to make, in order.
    pub fn prepare_destroy(&mut self) -> (calls: Vec<TeardownCall>)
        ensures
            calls@ == old(self).teardown(),
            *final(self) == old(self).down(),
    {
        let mut calls: Vec<TeardownCall> = Vec::new();
        if self.destroyed {
            assert(calls@ =~= self.teardown());
            return calls;
        }
        if self.processing {
            calls.push(TeardownCall::StopProcessing);
        }
        self.processing = false;
        if self.active {
            calls.push(TeardownCall::Deactivate);
        }
        self.active = false;
        if self.connected {
            calls.push(TeardownCall::DisconnectComponent);
            calls.push(TeardownCall::DisconnectController);
        }
        if self.has_controller {
            calls.push(TeardownCall::TerminateController);
        }
        calls.push(TeardownCall::TerminateComponent);
        self.destroyed = true;
        assert(calls@ =~= old(self).teardown());
        calls
    }

    /// The plan of a block with these output lengths, unless the instance was taken down.
    pub open spec fn block_plan(
        self,
        left_frames: usize,
        right_frames: usize,
        has_input: bool,
    ) -> Option<BlockPlan> {
        if self.destroyed {
            None
        } else {
            let frames = if left_frames <= right_frames {
                left_frames
            } else {
                right_frames
            };
            let num_inputs = if has_input {
                1i32
            } else {
                0i32
            };
            Some(BlockPlan { num_samples: frames as i32, num_inputs, num_outputs: 1 })
        }
    }

    /// Plans a block with these output lengths, unless the instance was taken down: as many
    /// frames as fit into both outputs, and one input bus if there is input.
    pub fn process_block(
        &self,
        left_frames: usize,
        right_frames: usize,
        has_input: bool,
    ) -> (plan: Option<BlockPlan>)
        ensures
            plan == if self.destroyed {
                None
            } else {
                Some(
                    BlockPlan {
                        num_samples: (if left_frames <= right_frames {
                            left_frames
                        } else {
                            right_frames
                        }) as i32,
                        num_inputs: if has_input {
                            1
                        } else {
                            0
                        },
                        num_outputs: 1,
                    },
                )
            },
            plan == self.block_plan(left_frames, right_frames, has_input),
    {
        if self.destroyed {
            return None;
        }
        let frames = if left_frames <= right_frames {
            left_frames
        } else {
            right_frames
        };
        Some(
            BlockPlan {
                num_samples: #[verifier::truncate]
                (frames as i32),
                num_inputs: if has_input {
                    1
                } else {
                    0
                },
                num_outputs: 1,
            },
        )
    }
}

/// Returns the indices of the buses of a group, given how many the plugin says there are.
pub fn bus_indices(count: i32) -> (indices: Vec<i32>)
    ensures
        indices@.len() == if count < 0 {
            0
        } else {
            count as int
        },
        forall|i: int| 0 <= i < indices@.len() ==> #[trigger] indices@[i] == i,
{
    let mut indices: Vec<i32> = Vec::new();
    let mut index: i32 = 0;
    while index < count
        invariant
            0 <= index,
            count < 0 ==> index == 0,
            count >= 0 ==> index <= count,
            indices@.len() == index,
            forall|i: int| 0 <= i < indices@.len() ==> #[trigger] indices@[i] == i,
        decreases count - index,
    {
        indices.push(index);
        index = index + 1;
    }
    indices
}

/// How a processor is set up for audio.
#[derive(Debug, Clone, Copy, PartialEq, Eq, Structural)]
pub struct AudioSetup {
    /// Number of input buses that are arranged.
    pub input_count: i32,
    /// Largest block.
    pub max_samples_per_block: i32,
    /// Frames in a second.
    pub sample_rate: usize,
}

/// The larger of a number and one.
pub open spec fn at_least_one(n: usize) -> usize {
    if n < 1 {
        1
    } else {
        n
    }
}

/// How a processor of some role is set up for audio: an effect has one input, an instrument none,
/// and neither the rate nor the block size is zero.
pub open spec fn audio_setup(role: Role, sample_rate: usize, block_size: usize) -> AudioSetup {
    AudioSetup {
        input_count: if role == Role::Effect {
            1
        } else {
            0
        },
        max_samples_per_block: at_least_one(block_size) as i32,
        sample_rate: at_least_one(sample_rate),
    }
}

/// Returns how a processor of some role is set up for audio.
pub fn audio_setup_for(role: Role, sample_rate: usize, block_size: usize) -> (setup: AudioSetup)
    ensures
        setup == audio_setup(role, sample_rate, block_size),
        sample_rate >= 1 ==> setup.sample_rate == sample_rate,
        1 <= block_size <= i32::MAX ==> setup.max_samples_per_block == block_size,
        setup.input_count == match role {
            Role::Effect => 1int,
            Role::Instrument => 0int,
        },
{
    let block_size: usize = if block_size < 1 {
        1
    } else {
        block_size
    };
    AudioSetup {
        input_count: if role == Role::Effect {
            1
        } else {
            0
        },
        max_samples_per_block: #[verifier::truncate]
        (block_size as i32),
        sample_rate: if sample_rate < 1 {
            1
        } else {
            sample_rate
        },
    }
}

/// What setting a plugin up asks for.
#[derive(Debug)]
pub enum SetupAction {
    /// Load a module.
    LoadModule {
        /// The candidate.
        path: PathBuf,
        /// Its library.
        library_path: PathBuf,
    },
    /// Make the host application that the component is given.
    MakeHost,
    /// Ask the factory for the component with this class id.
    CreateComponent(Tuid),
    /// Initialize the component.
    InitializeComponent,
    /// Ask the component for its audio processor.
    GetProcessor,
    /// Ask whether the component is its own controller.
    GetController,
    /// Ask the component for its controller's class id.
    GetControllerClassId,
    /// Ask the factory for the controller with this class id.
    CreateController(Tuid),
    /// Make the host application that the controller is given.
    MakeControllerHost,
    /// Initialize the controller.
    InitializeController,
    /// Give the controller its component handler, if the host has one.
    SetComponentHandler,
    /// Ask component and controller for their connection points.
    GetConnections,
    /// Connect component and controller with each other.
    Connect,
    /// Propose stereo buses, with this many inputs and one output.
    SetBusArrangements(i32),
    /// Activate the buses of a group.
    ActivateBuses(BusGroup),
    /// Set the processor up.
    SetupProcessing(AudioSetup),
    /// Activate the component.
    SetActive,
    /// Start processing.
    SetProcessing,
    /// Nothing: the plugin is ready.
    Ready(RuntimeState),
    /// Nothing: the plugin could not be set up. Where there is an instance, it is to be taken
    /// down.
    Failed {
        /// What failed.
        error: Vst3RuntimeError,
        /// What is up.
        instance: Option<RuntimeState>,
    },
    /// The answer to the last request, which the given one was not.
    Wait,
}

/// The plugin's answer.
#[derive(Debug)]
pub enum SetupReply {
    /// Whether the module was loaded.
    Module(Result<(), Vst3ProbeError>),
    /// Whether the call succeeded, or the thing that was asked for is there.
    Answer(bool),
    /// The controller's class id, if the component has one.
    ClassId(Option<Tuid>),
    /// Whether the component and the controller have connection points.
    Connections {
        /// The component's.
        component: bool,
        /// The controller's.
        controller: bool,
    },
    /// The call was made.
    Done,
}

/// The contents of a [`SetupAction`].
pub enum SetupRequest {
    LoadModule { path: Seq<u8>, library_path: Seq<u8> },
    MakeHost,
    CreateComponent(Seq<u8>),
    InitializeComponent,
    GetProcessor,
    GetController,
    GetControllerClassId,
    CreateController(Seq<u8>),
    MakeControllerHost,
    InitializeController,
    SetComponentHandler,
    GetConnections,
    Connect,
    SetBusArrangements(i32),
    ActivateBuses(BusGroup),
    SetupProcessing(AudioSetup),
    SetActive,
    SetProcessing,
    Ready(RuntimeState),
    Failed { error: RuntimeFailure, instance: Option<RuntimeState> },
    Wait,
}

impl View for SetupAction {
    type V = SetupRequest;

    open spec fn view(&self) -> SetupRequest {
        match self {
            SetupAction::LoadModule { path, library_path } => SetupRequest::LoadModule {
                path: buffer_bytes(*path),
                library_path: buffer_bytes(*library_path),
            },
            SetupAction::MakeHost => SetupRequest::MakeHost,
            SetupAction::CreateComponent(class_id) => SetupRequest::CreateComponent(class_id@),
            SetupAction::InitializeComponent => SetupRequest::InitializeComponent,
            SetupAction::GetProcessor => SetupRequest::GetProcessor,
            SetupAction::GetController => SetupRequest::GetController,
            SetupAction::GetControllerClassId => SetupRequest::GetControllerClassId,
            SetupAction::CreateController(class_id) => SetupRequest::CreateController(class_id@),
            SetupAction::MakeControllerHost => SetupRequest::MakeControllerHost,
            SetupAction::InitializeController => SetupRequest::InitializeController,
            SetupAction::SetComponentHandler => SetupRequest::SetComponentHandler,
            SetupAction::GetConnections => SetupRequest::GetConnections,
            SetupAction::Connect => SetupRequest::Connect,
            SetupAction::SetBusArrangements(inputs) => SetupRequest::SetBusArrangements(*inputs),
            SetupAction::ActivateBuses(group) => SetupRequest::ActivateBuses(*group),
            SetupAction::SetupProcessing(setup) => SetupRequest::SetupProcessing(*setup),
            SetupAction::SetActive => SetupRequest::SetActive,
            SetupAction::SetProcessing => SetupRequest::SetProcessing,
            SetupAction::Ready(state) => SetupRequest::Ready(*state),
            SetupAction::Failed { error, instance } => SetupRequest::Failed {
                error: error@,
                instance: *instance,
            },
            SetupAction::Wait => SetupRequest::Wait,
        }
    }
}

/// The contents of a [`SetupReply`].
pub enum SetupAnswer {
    Module(Result<(), Vst3Error>),
    Answer(bool),
    ClassId(Option<Seq<u8>>),
    Connections { component: bool, controller: bool },
    Done,
}

impl View for SetupReply {
    type V = SetupAnswer;

    open spec fn view(&self) -> SetupAnswer {
        match self {
            SetupReply::Module(Ok(())) => SetupAnswer::Module(Ok(())),
            SetupReply::Module(Err(error)) => SetupAnswer::Module(Err(error@)),
            SetupReply::Answer(yes) => SetupAnswer::Answer(*yes),
            SetupReply::ClassId(None) => SetupAnswer::ClassId(None),
            SetupReply::ClassId(Some(class_id)) => SetupAnswer::ClassId(Some(class_id@)),
            SetupReply::Connections { component, controller } => SetupAnswer::Connections {
                component: *component,
                controller: *controller,
            },
            SetupReply::Done => SetupAnswer::Done,
        }
    }
}

/// What setting a plugin up waits for.
#[derive(Debug, Clone, Copy, PartialEq, Eq, Structural)]
pub enum SetupStage {
    /// The module.
    Module,
    /// The component's host application.
    Host,
    /// The component.
    Component,
    /// The component's initialization.
    Initialize,
    /// The audio processor.
    Processor,
    /// The component as a controller.
    Controller,
    /// The controller's class id.
    ControllerId,
    /// The controller.
    ControllerInstance,
    /// The controller's host application.
    ControllerHost,
    /// The controller's initialization.
    ControllerInitialize,
    /// The component handler.
    Handler,
    /// The connection points.
    Connections,
    /// The connection.
    Connect,
    /// The bus arrangements.
    Arrange,
    /// The activation of some buses.
    Buses(BusGroup),
    /// The processor's setup.
    Setup,
    /// The component's activation.
    Activate,
    /// The start of processing.
    Process,
    /// Nothing.
    Done,
}

impl SetupStage {
    /// Whether the parts of the instance are still being created.
    pub open spec fn is_creation(self) -> bool {
        match self {
            SetupStage::Connections => false,
            SetupStage::Connect => false,
            SetupStage::Arrange => false,
            SetupStage::Buses(_) => false,
            SetupStage::Setup => false,
            SetupStage::Activate => false,
            SetupStage::Process => false,
            SetupStage::Done => false,
            _ => true,
        }
    }

    /// Returns whether the parts of the instance are still being created.
    fn creates(self) -> (r: bool)
        ensures
            r == self.is_creation(),
    {
        match self {
            SetupStage::Connections => false,
            SetupStage::Connect => false,
            SetupStage::Arrange => false,
            SetupStage::Buses(_) => false,
            SetupStage::Setup => false,
            SetupStage::Activate => false,
            SetupStage::Process => false,
            SetupStage::Done => false,
            _ => true,
        }
    }
}

/// A plugin instance that is being set up.
#[derive(Debug)]
pub struct RuntimeSetup {
    class_id: String,
    audio: AudioSetup,
    state: RuntimeState,
    stage: SetupStage,
}

/// The contents of a [`RuntimeSetup`].
#[verifier::ext_equal]
pub struct Setup {
    pub class_id: Seq<char>,
    pub audio: AudioSetup,
    pub state: RuntimeState,
    pub stage: SetupStage,
}

impl View for RuntimeSetup {
    type V = Setup;

    closed spec fn view(&self) -> Setup {
        Setup {
            class_id: self.class_id@,
            audio: self.audio,
            state: self.state,
            stage: self.stage,
        }
    }
}

/// Nothing up.
pub open spec fn nothing_up() -> RuntimeState {
    RuntimeState {
        has_controller: false,
        connected: false,
        active: false,
        processing: false,
        destroyed: false,
    }
}

/// A plugin that begins to be set up, and what that asks for first.
pub open spec fn first(
    path: Seq<u8>,
    library_path: Seq<u8>,
    class_id: Seq<char>,
    audio: AudioSetup,
) -> (Setup, SetupRequest) {
    (
        Setup { class_id, audio, state: nothing_up(), stage: SetupStage::Module },
        SetupRequest::LoadModule { path, library_path },
    )
}

impl Setup {
    /// Goes on to wait for something else.
    pub open spec fn at(self, stage: SetupStage, request: SetupRequest) -> (Setup, SetupRequest) {
        (Setup { stage, ..self }, request)
    }

    /// Ends without an instance.
    pub open spec fn fail(self, error: RuntimeFailure) -> (Setup, SetupRequest) {
        self.at(SetupStage::Done, SetupRequest::Failed { error, instance: None })
    }

    /// Ends with an instance that is to be taken down.
    pub open spec fn abandon(self, error: RuntimeFailure) -> (Setup, SetupRequest) {
        self.at(SetupStage::Done, SetupRequest::Failed { error, instance: Some(self.state) })
    }

    /// What setting up does with an answer.
    pub open spec fn after(self, answer: SetupAnswer) -> (Setup, SetupRequest) {
        match (self.stage, answer) {
            (SetupStage::Module, SetupAnswer::Module(Err(error))) => self.fail(
                RuntimeFailure::Probe(error),
            ),
            (SetupStage::Module, SetupAnswer::Module(Ok(()))) => match tuid_of(self.class_id) {
                None => self.fail(RuntimeFailure::InvalidClassId(self.class_id)),
                Some(_) => self.at(SetupStage::Host, SetupRequest::MakeHost),
            },
            (SetupStage::Host, SetupAnswer::Answer(made)) => match tuid_of(self.class_id) {
                Some(class_id) if made => self.at(
                    SetupStage::Component,
                    SetupRequest::CreateComponent(class_id),
                ),
                _ => self.fail(RuntimeFailure::InitializeFailed),
            },
            (SetupStage::Component, SetupAnswer::Answer(created)) => if created {
                self.at(SetupStage::Initialize, SetupRequest::InitializeComponent)
            } else {
                self.fail(RuntimeFailure::CreateProcessorFailed)
            },
            (SetupStage::Initialize, SetupAnswer::Answer(initialized)) => if initialized {
                self.at(SetupStage::Processor, SetupRequest::GetProcessor)
            } else {
                self.fail(RuntimeFailure::InitializeFailed)
            },
            (SetupStage::Processor, SetupAnswer::Answer(found)) => if found {
                self.at(SetupStage::Controller, SetupRequest::GetController)
            } else {
                self.fail(RuntimeFailure::MissingAudioProcessor)
            },
            (SetupStage::Controller, SetupAnswer::Answer(found)) => if found {
                self.at(SetupStage::ControllerHost, SetupRequest::MakeControllerHost)
            } else {
                self.at(SetupStage::ControllerId, SetupRequest::GetControllerClassId)
            },
            (SetupStage::ControllerId, SetupAnswer::ClassId(Some(class_id))) => self.at(
                SetupStage::ControllerInstance,
                SetupRequest::CreateController(class_id),
            ),
            (SetupStage::ControllerId, SetupAnswer::ClassId(None)) => self.at(
                SetupStage::Connections,
                SetupRequest::GetConnections,
            ),
            (SetupStage::ControllerInstance, SetupAnswer::Answer(created)) => if created {
                self.at(SetupStage::ControllerHost, SetupRequest::MakeControllerHost)
            } else {
                self.at(SetupStage::Connections, SetupRequest::GetConnections)
            },
            (SetupStage::ControllerHost, SetupAnswer::Answer(made)) => if made {
                self.at(SetupStage::ControllerInitialize, SetupRequest::InitializeController)
            } else {
                self.fail(RuntimeFailure::InitializeFailed)
            },
            (SetupStage::ControllerInitialize, SetupAnswer::Answer(initialized)) => if initialized {
                self.at(SetupStage::Handler, SetupRequest::SetComponentHandler)
            } else {
                self.fail(RuntimeFailure::InitializeFailed)
            },
            (SetupStage::Handler, SetupAnswer::Done) => (Setup {
                state: RuntimeState { has_controller: true, ..self.state },
                ..self
            }).at(SetupStage::Connections, SetupRequest::GetConnections),
            (SetupStage::Connections, SetupAnswer::Connections { component, controller }) => {
                if component && controller && self.state.has_controller {
                    (Setup { state: RuntimeState { connected: true, ..self.state }, ..self }).at(
                        SetupStage::Connect,
                        SetupRequest::Connect,
                    )
                } else {
                    self.at(
                        SetupStage::Arrange,
                        SetupRequest::SetBusArrangements(self.audio.input_count),
                    )
                }
            },
            (SetupStage::Connect, SetupAnswer::Done) => self.at(
                SetupStage::Arrange,
                SetupRequest::SetBusArrangements(self.audio.input_count),
            ),
            (SetupStage::Arrange, SetupAnswer::Done) => self.at(
                SetupStage::Buses(BusGroup::AudioInputs),
                SetupRequest::ActivateBuses(BusGroup::AudioInputs),
            ),
            (SetupStage::Buses(BusGroup::AudioInputs), SetupAnswer::Done) => self.at(
                SetupStage::Buses(BusGroup::AudioOutputs),
                SetupRequest::ActivateBuses(BusGroup::AudioOutputs),
            ),
            (SetupStage::Buses(BusGroup::AudioOutputs), SetupAnswer::Done) => self.at(
                SetupStage::Buses(BusGroup::EventInputs),
                SetupRequest::ActivateBuses(BusGroup::EventInputs),
            ),
            (SetupStage::Buses(BusGroup::EventInputs), SetupAnswer::Done) => self.at(
                SetupStage::Setup,
                SetupRequest::SetupProcessing(self.audio),
            ),
            (SetupStage::Setup, SetupAnswer::Answer(accepted)) => if accepted {
                self.at(SetupStage::Activate, SetupRequest::SetActive)
            } else {
                self.abandon(RuntimeFailure::SetupFailed)
            },
            (SetupStage::Activate, SetupAnswer::Answer(activated)) => if activated {
                (Setup { state: RuntimeState { active: true, ..self.state }, ..self }).at(
                    SetupStage::Process,
                    SetupRequest::SetProcessing,
                )
            } else {
                self.abandon(RuntimeFailure::ActivateFailed)
            },
            (SetupStage::Process, SetupAnswer::Answer(started)) => if started {
                let state = RuntimeState { processing: true, ..self.state };
                (Setup { state, ..self }).at(SetupStage::Done, SetupRequest::Ready(state))
            } else {
                self.abandon(RuntimeFailure::ActivateFailed)
            },
            _ => (self, SetupRequest::Wait),
        }
    }

    /// Whether the class id can be read when an answer calls for it.
    pub open spec fn is_ready_for(self, answer: SetupAnswer) -> bool {
        self.stage == SetupStage::Module && answer == SetupAnswer::Module(Ok(())) || self.stage
            == SetupStage::Host ==> splits_in_pairs(self.class_id)
    }
}

/// Starts to set a plugin instance up.
pub fn instantiate(
    metadata: &Vst3PluginMetadata,
    sample_rate: usize,
    block_size: usize,
    role: Role,
) -> (started: (RuntimeSetup, SetupAction))
    ensures
        (started.0@, started.1@) == first(
            metadata@.path,
            metadata@.library_path,
            metadata@.class_id,
            audio_setup(role, sample_rate, block_size),
        ),
{
    let setup = RuntimeSetup {
        class_id: metadata.class_id.clone(),
        audio: audio_setup_for(role, sample_rate, block_size),
        state: RuntimeState {
            has_controller: false,
            connected: false,
            active: false,
            processing: false,
            destroyed: false,
        },
        stage: SetupStage::Module,
    };
    let action = SetupAction::LoadModule {
        path: metadata.path.as_path().to_path_buf(),
        library_path: metadata.library_path.as_path().to_path_buf(),
    };
    (setup, action)
}

impl RuntimeSetup {
    /// Goes on to wait for something else.
    fn at(&mut self, stage: SetupStage, action: SetupAction) -> (next: SetupAction)
        ensures
            (final(self)@, next@) == old(self)@.at(stage, action@),
    {
        self.stage = stage;
        action
    }

    /// Ends without an instance.
    fn fail(&mut self, error: Vst3RuntimeError) -> (action: SetupAction)
        ensures
            (final(self)@, action@) == old(self)@.fail(error@),
    {
        self.stage = SetupStage::Done;
        SetupAction::Failed { error, instance: None }
    }

    /// Ends with an instance that is to be taken down.
    fn abandon(&mut self, error: Vst3RuntimeError) -> (action: SetupAction)
        ensures
            (final(self)@, action@) == old(self)@.abandon(error@),
    {
        self.stage = SetupStage::Done;
        SetupAction::Failed { error, instance: Some(self.state) }
    }

    /// Returns whether the class id can be read when an answer calls for it.
    pub fn ready_for(&self, reply: &SetupReply) -> (r: bool)
        ensures
            r == self@.is_ready_for(reply@),
    {
        let reads = match (self.stage, reply) {
            (SetupStage::Module, SetupReply::Module(Ok(()))) => true,
            (SetupStage::Host, _) => true,
            _ => false,
        };
        !reads || super::class_info::hex_splits_in_pairs(self.class_id.as_str())
    }

    /// Takes the answer to a request of the first part, up to the connection points.
    fn resume_creation(&mut self, reply: SetupReply) -> (action: SetupAction)
        requires
            old(self)@.is_ready_for(reply@),
            old(self)@.stage.is_creation(),
        ensures
            (final(self)@, action@) == old(self)@.after(reply@),
    {
        match (self.stage, reply) {
            (SetupStage::Module, SetupReply::Module(loaded)) => {
                match loaded {
                    Err(error) => self.fail(Vst3RuntimeError::Probe(error)),
                    Ok(()) => match hex_to_tuid(self.class_id.as_str()) {
                        None => {
                            let class_id = self.class_id.clone();
                            self.fail(Vst3RuntimeError::InvalidClassId(class_id))
                        },
                        Some(_) => self.at(SetupStage::Host, SetupAction::MakeHost),
                    },
                }
            },
            (SetupStage::Host, SetupReply::Answer(made)) => {
                match hex_to_tuid(self.class_id.as_str()) {
                    Some(class_id) if made => self.at(
                        SetupStage::Component,
                        SetupAction::CreateComponent(class_id),
                    ),
                    _ => self.fail(Vst3RuntimeError::InitializeFailed),
                }
            },
            (SetupStage::Component, SetupReply::Answer(created)) => {
                if created {
                    self.at(SetupStage::Initialize, SetupAction::InitializeComponent)
                } else {
                    self.fail(Vst3RuntimeError::CreateProcessorFailed)
                }
            },
            (SetupStage::Initialize, SetupReply::Answer(initialized)) => {
                if initialized {
                    self.at(SetupStage::Processor, SetupAction::GetProcessor)
                } else {
                    self.fail(Vst3RuntimeError::InitializeFailed)
                }
            },
            (SetupStage::Processor, SetupReply::Answer(found)) => {
                if found {
                    self.at(SetupStage::Controller, SetupAction::GetController)
                } else {
                    self.fail(Vst3RuntimeError::MissingAudioProcessor)
                }
            },
            (SetupStage::Controller, SetupReply::Answer(found)) => {
                if found {
                    self.at(SetupStage::ControllerHost, SetupAction::MakeControllerHost)
                } else {
                    self.at(SetupStage::ControllerId, SetupAction::GetControllerClassId)
                }
            },
            (SetupStage::ControllerId, SetupReply::ClassId(class_id)) => {
                match class_id {
                    Some(class_id) => self.at(
                        SetupStage::ControllerInstance,
                        SetupAction::CreateController(class_id),
                    ),
                    None => self.at(SetupStage::Connections, SetupAction::GetConnections),
                }
            },
            (SetupStage::ControllerInstance, SetupReply::Answer(created)) => {
                if created {
                    self.at(SetupStage::ControllerHost, SetupAction::MakeControllerHost)
                } else {
                    self.at(SetupStage::Connections, SetupAction::GetConnections)
                }
            },
            (SetupStage::ControllerHost, SetupReply::Answer(made)) => {
                if made {
                    self.at(SetupStage::ControllerInitialize, SetupAction::InitializeController)
                } else {
                    self.fail(Vst3RuntimeError::InitializeFailed)
                }
            },
            (SetupStage::ControllerInitialize, SetupReply::Answer(initialized)) => {
                if initialized {
                    self.at(SetupStage::Handler, SetupAction::SetComponentHandler)
                } else {
                    self.fail(Vst3RuntimeError::InitializeFailed)
                }
            },
            (SetupStage::Handler, SetupReply::Done) => {
                self.state.has_controller = true;
                self.at(SetupStage::Connections, SetupAction::GetConnections)
            },
            _ => SetupAction::Wait,
        }
    }

    /// Takes the answer to a request of the second part: connecting and configuring audio.
    fn resume_configuration(&mut self, reply: SetupReply) -> (action: SetupAction)
        requires
            !old(self)@.stage.is_creation(),
        ensures
            (final(self)@, action@) == old(self)@.after(reply@),
    {
        match (self.stage, reply) {
            (SetupStage::Connections, SetupReply::Connections { component, controller }) => {
                if component && controller && self.state.has_controller {
                    self.state.connected = true;
                    self.at(SetupStage::Connect, SetupAction::Connect)
                } else {
                    let inputs = self.audio.input_count;
                    self.at(SetupStage::Arrange, SetupAction::SetBusArrangements(inputs))
                }
            },
            (SetupStage::Connect, SetupReply::Done) => {
                let inputs = self.audio.input_count;
                self.at(SetupStage::Arrange, SetupAction::SetBusArrangements(inputs))
            },
            (SetupStage::Arrange, SetupReply::Done) => self.at(
                SetupStage::Buses(BusGroup::AudioInputs),
                SetupAction::ActivateBuses(BusGroup::AudioInputs),
            ),
            (SetupStage::Buses(BusGroup::AudioInputs), SetupReply::Done) => self.at(
                SetupStage::Buses(BusGroup::AudioOutputs),
                SetupAction::ActivateBuses(BusGroup::AudioOutputs),
            ),
            (SetupStage::Buses(BusGroup::AudioOutputs), SetupReply::Done) => self.at(
                SetupStage::Buses(BusGroup::EventInputs),
                SetupAction::ActivateBuses(BusGroup::EventInputs),
            ),
            (SetupStage::Buses(BusGroup::EventInputs), SetupReply::Done) => {
                let audio = self.audio;
                self.at(SetupStage::Setup, SetupAction::SetupProcessing(audio))
            },
            (SetupStage::Setup, SetupReply::Answer(accepted)) => {
                if accepted {
                    self.at(SetupStage::Activate, SetupAction::SetActive)
                } else {
                    self.abandon(Vst3RuntimeError::SetupFailed)
                }
            },
            (SetupStage::Activate, SetupReply::Answer(activated)) => {
                if activated {
                    self.state.active = true;
                    self.at(SetupStage::Process, SetupAction::SetProcessing)
                } else {
                    self.abandon(Vst3RuntimeError::ActivateFailed)
                }
            },
            (SetupStage::Process, SetupReply::Answer(started)) => {
                if started {
                    self.state.processing = true;
                    let state = self.state;
                    self.at(SetupStage::Done, SetupAction::Ready(state))
                } else {
                    self.abandon(Vst3RuntimeError::ActivateFailed)
                }
            },
            _ => SetupAction::Wait,
        }
    }

    /// Takes the answer to the last request.
    pub fn resume(&mut self, reply: SetupReply) -> (action: SetupAction)
        requires
            old(self)@.is_ready_for(reply@),
        ensures
            (final(self)@, action@) == old(self)@.after(reply@),
    {
        if self.stage.creates() {
            self.resume_creation(reply)
        } else {
            self.resume_configuration(reply)
        }
    }
}

/// Whether a state can be that of an instance: one that was taken down is neither active nor
/// processing, and only a controller can be connected.
pub open spec fn is_consistent(state: RuntimeState) -> bool {
    &&& state.destroyed ==> !state.active && !state.processing
    &&& state.connected ==> state.has_controller
}

/// An instance that was taken down is neither active nor processing, and is not taken down again.
pub proof fn law_teardown_happens_once(state: RuntimeState)
    requires
        is_consistent(state),
    ensures
        is_consistent(state.down()),
        state.down().destroyed,
        !state.down().active,
        !state.down().processing,
        state.down().teardown() == Seq::<TeardownCall>::empty(),
        state.down().down() == state.down(),
{
}

/// Whether a call takes down something that is up.
pub open spec fn is_up(state: RuntimeState, call: TeardownCall) -> bool {
    match call {
        TeardownCall::StopProcessing => state.processing,
        TeardownCall::Deactivate => state.active,
        TeardownCall::DisconnectComponent => state.connected,
        TeardownCall::DisconnectController => state.connected,
        TeardownCall::TerminateController => state.has_controller,
        TeardownCall::TerminateComponent => true,
    }
}

/// Whether calls stand in the order in which an instance is taken down, none twice, between two
/// places.
pub open spec fn is_ordered(calls: Seq<TeardownCall>, from: int, to: int) -> bool {
    &&& forall|i: int| 0 <= i < calls.len() ==> from <= rank(#[trigger] calls[i]) < to
    &&& forall|i: int, j: int|
        0 <= i < j < calls.len() ==> rank(#[trigger] calls[i]) < rank(#[trigger] calls[j])
}

proof fn lemma_ordered_on(a: Seq<TeardownCall>, b: Seq<TeardownCall>, from: int, mid: int, to: int)
    requires
        is_ordered(a, from, mid),
        is_ordered(b, mid, to),
        from <= mid <= to,
    ensures
        is_ordered(a + b, from, to),
{
    let all = a + b;
    assert forall|i: int, j: int| 0 <= i < j < all.len() implies rank(#[trigger] all[i]) < rank(
        #[trigger] all[j],
    ) by {
        if j < a.len() {
            assert(all[i] == a[i] && all[j] == a[j]);
        } else if i >= a.len() {
            assert(all[i] == b[i - a.len()] && all[j] == b[j - a.len()]);
        } else {
            assert(all[i] == a[i] && all[j] == b[j - a.len()]);
        }
    }
}

/// What is up is taken down in reverse order: processing before activation, both before the
/// connection, that before the controller, and the component, which is always up, last. Nothing
/// else is called, and nothing twice.
pub proof fn law_teardown_is_ordered(state: RuntimeState)
    requires
        !state.destroyed,
    ensures
        forall|call: TeardownCall| #[trigger]
            state.teardown().contains(call) <==> is_up(state, call),
        is_ordered(state.teardown(), 0, 6),
        state.teardown().last() == TeardownCall::TerminateComponent,
{
    let none = Seq::<TeardownCall>::empty();
    let a = if state.processing {
        seq![TeardownCall::StopProcessing]
    } else {
        none
    };
    let b = if state.active {
        seq![TeardownCall::Deactivate]
    } else {
        none
    };
    let c = if state.connected {
        seq![TeardownCall::DisconnectComponent, TeardownCall::DisconnectController]
    } else {
        none
    };
    let d = if state.has_controller {
        seq![TeardownCall::TerminateController]
    } else {
        none
    };
    let e = seq![TeardownCall::TerminateComponent];
    assert(state.teardown() == a + b + c + d + e);
    lemma_ordered_on(a, b, 0, 1, 2);
    lemma_ordered_on(a + b, c, 0, 2, 4);
    lemma_ordered_on(a + b + c, d, 0, 4, 5);
    lemma_ordered_on(a + b + c + d, e, 0, 5, 6);
    assert forall|call: TeardownCall| #[trigger]
        state.teardown().contains(call) <==> is_up(state, call) by {
        lemma_seq_concat_contains_all_elements(a, b, call);
        lemma_seq_concat_contains_all_elements(a + b, c, call);
        lemma_seq_concat_contains_all_elements(a + b + c, d, call);
        lemma_seq_concat_contains_all_elements(a + b + c + d, e, call);
        assert(state.processing ==> a[0] == TeardownCall::StopProcessing);
        assert(state.active ==> b[0] == TeardownCall::Deactivate);
        assert(state.connected ==> c[0] == TeardownCall::DisconnectComponent && c[1]
            == TeardownCall::DisconnectController);
        assert(state.has_controller ==> d[0] == TeardownCall::TerminateController);
        assert(e[0] == TeardownCall::TerminateComponent);
    }
}

/// The place of a call among those that take an instance down.
pub open spec fn rank(call: TeardownCall) -> int {
    match call {
        TeardownCall::StopProcessing => 0,
        TeardownCall::Deactivate => 1,
        TeardownCall::DisconnectComponent => 2,
        TeardownCall::DisconnectController => 3,
        TeardownCall::TerminateController => 4,
        TeardownCall::TerminateComponent => 5,
    }
}

/// A plugin as setting up meets it: its answer to each question.
pub struct Plugin {
    pub module: Result<(), Vst3Error>,
    pub host: bool,
    pub component: bool,
    pub initialized: bool,
    pub processor: bool,
    pub own_controller: bool,
    pub controller_id: Option<Seq<u8>>,
    pub controller: bool,
    pub controller_initialized: bool,
    pub component_connection: bool,
    pub controller_connection: bool,
    pub accepts_setup: bool,
    pub activates: bool,
    pub processes: bool,
}

impl Plugin {
    /// The plugin's answer to a request.
    pub open spec fn answer(self, request: SetupRequest) -> SetupAnswer {
        match request {
            SetupRequest::LoadModule { .. } => SetupAnswer::Module(self.module),
            SetupRequest::MakeHost => SetupAnswer::Answer(self.host),
            SetupRequest::CreateComponent(_) => SetupAnswer::Answer(self.component),
            SetupRequest::InitializeComponent => SetupAnswer::Answer(self.initialized),
            SetupRequest::GetProcessor => SetupAnswer::Answer(self.processor),
            SetupRequest::GetController => SetupAnswer::Answer(self.own_controller),
            SetupRequest::GetControllerClassId => SetupAnswer::ClassId(self.controller_id),
            SetupRequest::CreateController(_) => SetupAnswer::Answer(self.controller),
            SetupRequest::MakeControllerHost => SetupAnswer::Answer(self.host),
            SetupRequest::InitializeController => SetupAnswer::Answer(self.controller_initialized),
            SetupRequest::GetConnections => SetupAnswer::Connections {
                component: self.component_connection,
                controller: self.controller_connection,
            },
            SetupRequest::SetupProcessing(_) => SetupAnswer::Answer(self.accepts_setup),
            SetupRequest::SetActive => SetupAnswer::Answer(self.activates),
            SetupRequest::SetProcessing => SetupAnswer::Answer(self.processes),
            _ => SetupAnswer::Done,
        }
    }

    /// Setting up after a number of answers, up to its end.
    pub open spec fn run(self, turn: (Setup, SetupRequest), answers: nat) -> (Setup, SetupRequest)
        decreases answers,
    {
        if answers == 0 || turn.1 is Ready || turn.1 is Failed {
            turn
        } else {
            self.run(turn.0.after(self.answer(turn.1)), (answers - 1) as nat)
        }
    }

    /// Whether the plugin gives a controller: the component itself, or one of its own.
    pub open spec fn has_controller(self) -> bool {
        self.own_controller || self.controller_id is Some && self.controller
    }

    /// What is wrong with the plugin before there is an instance, if anything is.
    pub open spec fn creation_fault(self, class_id: Seq<char>) -> Option<RuntimeFailure> {
        if self.module is Err {
            Some(RuntimeFailure::Probe(self.module->Err_0))
        } else if tuid_of(class_id) is None {
            Some(RuntimeFailure::InvalidClassId(class_id))
        } else if !self.host {
            Some(RuntimeFailure::InitializeFailed)
        } else if !self.component {
            Some(RuntimeFailure::CreateProcessorFailed)
        } else if !self.initialized {
            Some(RuntimeFailure::InitializeFailed)
        } else if !self.processor {
            Some(RuntimeFailure::MissingAudioProcessor)
        } else if self.has_controller() && !self.controller_initialized {
            Some(RuntimeFailure::InitializeFailed)
        } else {
            None
        }
    }

    /// What is up of the plugin's instance when it is configured.
    pub open spec fn created(self) -> RuntimeState {
        RuntimeState {
            has_controller: self.has_controller(),
            connected: self.has_controller() && self.component_connection
                && self.controller_connection,
            ..nothing_up()
        }
    }

    /// What setting up comes to.
    pub open spec fn outcome(self, class_id: Seq<char>) -> SetupRequest {
        let created = self.created();
        let active = RuntimeState { active: true, ..created };
        match self.creation_fault(class_id) {
            Some(error) => SetupRequest::Failed { error, instance: None },
            None => if !self.accepts_setup {
                SetupRequest::Failed {
                    error: RuntimeFailure::SetupFailed,
                    instance: Some(created),
                }
            } else if !self.activates {
                SetupRequest::Failed {
                    error: RuntimeFailure::ActivateFailed,
                    instance: Some(created),
                }
            } else if !self.processes {
                SetupRequest::Failed {
                    error: RuntimeFailure::ActivateFailed,
                    instance: Some(active),
                }
            } else {
                SetupRequest::Ready(RuntimeState { processing: true, ..active })
            },
        }
    }
}

/// A plugin that is ready is active and processing, so that taking it down stops both, and takes
/// its controller and their connection down exactly when it has them.
pub proof fn law_ready_plugin_is_taken_down_whole(plugin: Plugin, class_id: Seq<char>)
    requires
        plugin.outcome(class_id) is Ready,
    ensures
        ({
            let state = plugin.outcome(class_id)->Ready_0;
            let calls = state.teardown();
            &&& calls.contains(TeardownCall::StopProcessing)
            &&& calls.contains(TeardownCall::Deactivate)
            &&& calls.contains(TeardownCall::TerminateComponent)
            &&& calls.contains(TeardownCall::TerminateController) <==> plugin.has_controller()
            &&& calls.contains(TeardownCall::DisconnectComponent) <==> plugin.has_controller()
                && plugin.component_connection && plugin.controller_connection
        }),
{
    law_teardown_is_ordered(plugin.outcome(class_id)->Ready_0);
}

proof fn lemma_run_on(plugin: Plugin, turn: (Setup, SetupRequest), a: nat, b: nat)
    ensures
        plugin.run(turn, a + b) == plugin.run(plugin.run(turn, a), b),
    decreases a,
{
    if a > 0 && !(turn.1 is Ready || turn.1 is Failed) {
        lemma_run_on(plugin, turn.0.after(plugin.answer(turn.1)), (a - 1) as nat, b);
        assert((a + b - 1) as nat == (a - 1) as nat + b);
    } else if a > 0 {
        assert(plugin.run(turn, b) == turn);
    }
}

proof fn lemma_run_creation(plugin: Plugin, setup: Setup, turn: (Setup, SetupRequest))
    requires
        setup.state == nothing_up(),
        turn == setup.at(SetupStage::Module, turn.1),
        turn.1 is LoadModule,
    ensures
        ({
            let end = plugin.run(turn, 6);
            match plugin.creation_fault(setup.class_id) {
                Some(error) if !plugin.has_controller() || plugin.controller_initialized
                    || plugin.module is Err || tuid_of(setup.class_id) is None || !plugin.host
                    || !plugin.component || !plugin.initialized || !plugin.processor => end
                    == setup.fail(error),
                _ => end == if plugin.own_controller {
                    setup.at(SetupStage::ControllerHost, SetupRequest::MakeControllerHost)
                } else {
                    setup.at(SetupStage::ControllerId, SetupRequest::GetControllerClassId)
                },
            }
        }),
{
    reveal_with_fuel(Plugin::run, 7);
}

proof fn lemma_run_controller(plugin: Plugin, setup: Setup)
    requires
        setup.state == nothing_up(),
        plugin.host,
    ensures
        ({
            let start = if plugin.own_controller {
                setup.at(SetupStage::ControllerHost, SetupRequest::MakeControllerHost)
            } else {
                setup.at(SetupStage::ControllerId, SetupRequest::GetControllerClassId)
            };
            let n: nat = if plugin.own_controller {
                3
            } else if plugin.controller_id is None {
                1
            } else if !plugin.controller {
                2
            } else {
                5
            };
            plugin.run(start, n) == if plugin.has_controller() && !plugin.controller_initialized {
                setup.fail(RuntimeFailure::InitializeFailed)
            } else {
                (Setup {
                    state: RuntimeState {
                        has_controller: plugin.has_controller(),
                        ..nothing_up()
                    },
                    ..setup
                }).at(SetupStage::Connections, SetupRequest::GetConnections)
            }
        }),
{
    reveal_with_fuel(Plugin::run, 6);
}

proof fn lemma_run_configuration(plugin: Plugin, setup: Setup)
    requires
        setup.state == (RuntimeState { has_controller: plugin.has_controller(), ..nothing_up() }),
    ensures
        ({
            let start = setup.at(SetupStage::Connections, SetupRequest::GetConnections);
            let created = plugin.created();
            let active = RuntimeState { active: true, ..created };
            plugin.run(start, 9).1 == if !plugin.accepts_setup {
                SetupRequest::Failed {
                    error: RuntimeFailure::SetupFailed,
                    instance: Some(created),
                }
            } else if !plugin.activates {
                SetupRequest::Failed {
                    error: RuntimeFailure::ActivateFailed,
                    instance: Some(created),
                }
            } else if !plugin.processes {
                SetupRequest::Failed {
                    error: RuntimeFailure::ActivateFailed,
                    instance: Some(active),
                }
            } else {
                SetupRequest::Ready(RuntimeState { processing: true, ..active })
            }
        }),
{
    reveal_with_fuel(Plugin::run, 10);
}

/// Setting a plugin up comes to an end. The plugin is ready exactly when nothing is wrong with
/// it, and then it is active and processing; otherwise the first fault is reported. Once there
/// is an instance, a failure hands it out with all that is up of it, so that it can be taken
/// down. Every instance that is handed out is in a consistent state.
pub proof fn law_setup_outcome(
    plugin: Plugin,
    path: Seq<u8>,
    library_path: Seq<u8>,
    class_id: Seq<char>,
    audio: AudioSetup,
)
    ensures
        exists|answers: nat|
            (#[trigger] plugin.run(first(path, library_path, class_id, audio), answers)).1
                == plugin.outcome(class_id),
        match plugin.outcome(class_id) {
            SetupRequest::Ready(state) => is_consistent(state),
            SetupRequest::Failed { instance: Some(state), .. } => is_consistent(state),
            _ => true,
        },
{
    let turn = first(path, library_path, class_id, audio);
    let setup = turn.0;
    lemma_run_creation(plugin, setup, turn);
    let created = plugin.run(turn, 6);
    if created.1 is Failed {
        assert(plugin.run(turn, 6).1 == plugin.outcome(class_id));
    } else {
        lemma_run_controller(plugin, setup);
        let n: nat = if plugin.own_controller {
            3
        } else if plugin.controller_id is None {
            1
        } else if !plugin.controller {
            2
        } else {
            5
        };
        lemma_run_on(plugin, turn, 6, n);
        let controlled = plugin.run(turn, 6 + n);
        if controlled.1 is Failed {
            assert(controlled.1 == plugin.outcome(class_id));
        } else {
            lemma_run_configuration(plugin, controlled.0);
            lemma_run_on(plugin, turn, 6 + n, 9);
            assert(plugin.run(turn, 6 + n + 9).1 == plugin.outcome(class_id));
        }
    }
}

/// A processor is set up with the host's own rate and block size, whatever they are, unless they
/// are zero: then with one. An effect gets one input bus and an instrument none.
pub proof fn law_audio_setup_is_the_hosts(role: Role, sample_rate: usize, block_size: usize)
    ensures
        sample_rate >= 1 ==> audio_setup(role, sample_rate, block_size).sample_rate == sample_rate,
        sample_rate == 0 ==> audio_setup(role, sample_rate, block_size).sample_rate == 1,
        1 <= block_size <= i32::MAX ==> audio_setup(
            role,
            sample_rate,
            block_size,
        ).max_samples_per_block == block_size,
        block_size == 0 ==> audio_setup(role, sample_rate, block_size).max_samples_per_block == 1,
        audio_setup(Role::Effect, sample_rate, block_size).input_count == 1,
        audio_setup(Role::Instrument, sample_rate, block_size).input_count == 0,
{
}

/// Whether a request carries what a plugin is set up with: its paths, its class, its controller's
/// class, and its audio setup with the number of inputs.
pub open spec fn asks_for(
    request: SetupRequest,
    plugin: Plugin,
    path: Seq<u8>,
    library_path: Seq<u8>,
    class_id: Seq<char>,
    audio: AudioSetup,
) -> bool {
    match request {
        SetupRequest::LoadModule { path: p, library_path: l } => p == path && l == library_path,
        SetupRequest::CreateComponent(id) => tuid_of(class_id) == Some(id),
        SetupRequest::CreateController(id) => plugin.controller_id == Some(id),
        SetupRequest::SetBusArrangements(inputs) => inputs == audio.input_count,
        SetupRequest::SetupProcessing(setup) => setup == audio,
        _ => true,
    }
}

/// All through setting a plugin up, the library and the class that are asked for are the plugin's,
/// and the rate, the block size and the number of inputs are those that it is to be set up with.
pub proof fn law_setup_asks_for_what_was_given(
    plugin: Plugin,
    path: Seq<u8>,
    library_path: Seq<u8>,
    class_id: Seq<char>,
    audio: AudioSetup,
    answers: nat,
)
    ensures
        asks_for(
            plugin.run(first(path, library_path, class_id, audio), answers).1,
            plugin,
            path,
            library_path,
            class_id,
            audio,
        ),
{
    let turn = first(path, library_path, class_id, audio);
    lemma_asks_for(plugin, turn, path, library_path, class_id, audio, answers);
}

proof fn lemma_asks_for(
    plugin: Plugin,
    turn: (Setup, SetupRequest),
    path: Seq<u8>,
    library_path: Seq<u8>,
    class_id: Seq<char>,
    audio: AudioSetup,
    answers: nat,
)
    requires
        turn.0.class_id == class_id,
        turn.0.audio == audio,
        asks_for(turn.1, plugin, path, library_path, class_id, audio),
        turn.0.stage == SetupStage::ControllerId ==> turn.1 is GetControllerClassId,
    ensures
        asks_for(plugin.run(turn, answers).1, plugin, path, library_path, class_id, audio),
    decreases answers,
{
    if !(answers == 0 || turn.1 is Ready || turn.1 is Failed) {
        let next = turn.0.after(plugin.answer(turn.1));
        lemma_asks_for(plugin, next, path, library_path, class_id, audio, (answers - 1) as nat);
    }
}

/// An instance that is handed to a host of some rate and block size was set up for these: the one
/// request to set processing up carries them.
pub proof fn law_processing_is_set_up_for_the_host(
    plugin: Plugin,
    path: Seq<u8>,
    library_path: Seq<u8>,
    class_id: Seq<char>,
    role: Role,
    sample_rate: usize,
    block_size: usize,
    answers: nat,
)
    requires
        sample_rate >= 1,
        1 <= block_size <= i32::MAX,
    ensures
        plugin.run(
            first(path, library_path, class_id, audio_setup(role, sample_rate, block_size)),
            answers,
        ).1 matches SetupRequest::SetupProcessing(setup) ==> {
            &&& setup.sample_rate == sample_rate
            &&& setup.max_samples_per_block == block_size
        },
{
    let audio = audio_setup(role, sample_rate, block_size);
    law_setup_asks_for_what_was_given(plugin, path, library_path, class_id, audio, answers);
    law_audio_setup_is_the_hosts(role, sample_rate, block_size);
}

/// Nothing is done before what it needs: a plugin is ready only when processing has started, that
/// is asked for only when the component was activated, and that only when the setup was accepted,
/// which is asked for when all buses were activated, inputs before outputs before events. The
/// component is made for a host, initialized when it was made, and asked for its processor when it
/// was initialized.
pub proof fn law_setup_goes_step_by_step(setup: Setup, answer: SetupAnswer)
    ensures
        ({
            let then = setup.after(answer).1;
            let yes = answer == SetupAnswer::Answer(true);
            let done = answer == SetupAnswer::Done;
            &&& then is Ready <==> setup.stage == SetupStage::Process && yes
            &&& then is SetProcessing <==> setup.stage == SetupStage::Activate && yes
            &&& then is SetActive <==> setup.stage == SetupStage::Setup && yes
            &&& then is SetupProcessing <==> setup.stage == SetupStage::Buses(BusGroup::EventInputs)
                && done
            &&& then == SetupRequest::ActivateBuses(BusGroup::EventInputs) <==> setup.stage
                == SetupStage::Buses(BusGroup::AudioOutputs) && done
            &&& then == SetupRequest::ActivateBuses(BusGroup::AudioOutputs) <==> setup.stage
                == SetupStage::Buses(BusGroup::AudioInputs) && done
            &&& then == SetupRequest::ActivateBuses(BusGroup::AudioInputs) <==> setup.stage
                == SetupStage::Arrange && done
            &&& then is InitializeComponent <==> setup.stage == SetupStage::Component && yes
            &&& then is GetProcessor <==> setup.stage == SetupStage::Initialize && yes
            &&& then is InitializeController <==> setup.stage == SetupStage::ControllerHost && yes
            &&& then is SetComponentHandler <==> setup.stage == SetupStage::ControllerInitialize
                && yes
        }),
        setup.after(answer).1 matches SetupRequest::Ready(state) ==> state.processing
            && state.active == setup.state.active && state.has_controller
            == setup.state.has_controller && state.connected == setup.state.connected,
{
}

/// A request and the stage at which its answer is awaited.
pub open spec fn awaits(stage: SetupStage, request: SetupRequest) -> bool {
    match request {
        SetupRequest::LoadModule { .. } => stage == SetupStage::Module,
        SetupRequest::MakeHost => stage == SetupStage::Host,
        SetupRequest::CreateComponent(_) => stage == SetupStage::Component,
        SetupRequest::InitializeComponent => stage == SetupStage::Initialize,
        SetupRequest::GetProcessor => stage == SetupStage::Processor,
        SetupRequest::GetController => stage == SetupStage::Controller,
        SetupRequest::GetControllerClassId => stage == SetupStage::ControllerId,
        SetupRequest::CreateController(_) => stage == SetupStage::ControllerInstance,
        SetupRequest::MakeControllerHost => stage == SetupStage::ControllerHost,
        SetupRequest::InitializeController => stage == SetupStage::ControllerInitialize,
        SetupRequest::SetComponentHandler => stage == SetupStage::Handler,
        SetupRequest::GetConnections => stage == SetupStage::Connections,
        SetupRequest::Connect => stage == SetupStage::Connect,
        SetupRequest::SetBusArrangements(_) => stage == SetupStage::Arrange,
        SetupRequest::ActivateBuses(group) => stage == SetupStage::Buses(group),
        SetupRequest::SetupProcessing(_) => stage == SetupStage::Setup,
        SetupRequest::SetActive => stage == SetupStage::Activate,
        SetupRequest::SetProcessing => stage == SetupStage::Process,
        SetupRequest::Ready(_) => stage == SetupStage::Done,
        SetupRequest::Failed { .. } => stage == SetupStage::Done,
        SetupRequest::Wait => true,
    }
}

/// Setting up always waits for the answer to what it asked for last, and an answer to something
/// else changes nothing.
pub proof fn law_setup_waits_for_its_answer(setup: Setup, answer: SetupAnswer)
    ensures
        awaits(setup.after(answer).0.stage, setup.after(answer).1),
        setup.after(answer).1 is Wait ==> setup.after(answer).0 == setup,
        setup.after(answer).0.class_id == setup.class_id,
        setup.after(answer).0.audio == setup.audio,
        setup.stage == SetupStage::Done ==> setup.after(answer).1 is Wait,
{
}

/// A plugin with nothing wrong with it gets ready, whatever it is to be set up with, and is asked
/// on the way to set processing up with exactly that.
pub proof fn law_sound_plugin_gets_ready(
    plugin: Plugin,
    path: Seq<u8>,
    library_path: Seq<u8>,
    class_id: Seq<char>,
    audio: AudioSetup,
)
    requires
        plugin.module is Ok,
        tuid_of(class_id) is Some,
        plugin.host,
        plugin.component,
        plugin.initialized,
        plugin.processor,
        plugin.own_controller || plugin.controller_id is Some && plugin.controller
            ==> plugin.controller_initialized,
        plugin.accepts_setup,
        plugin.activates,
        plugin.processes,
    ensures
        exists|answers: nat|
            (#[trigger] plugin.run(first(path, library_path, class_id, audio), answers)).1
                matches SetupRequest::Ready(state) && {
                &&& state.active
                &&& state.processing
                &&& !state.destroyed
                &&& state.has_controller == (plugin.own_controller || plugin.controller_id is Some
                    && plugin.controller)
                &&& state.connected == (state.has_controller && plugin.component_connection
                    && plugin.controller_connection)
            },
        exists|answers: nat|
            (#[trigger] plugin.run(first(path, library_path, class_id, audio), answers)).1
                == SetupRequest::SetupProcessing(audio),
{
    law_setup_outcome(plugin, path, library_path, class_id, audio);
    let turn = first(path, library_path, class_id, audio);
    let setup = turn.0;
    lemma_run_creation(plugin, setup, turn);
    lemma_run_controller(plugin, setup);
    let n: nat = if plugin.own_controller {
        3
    } else if plugin.controller_id is None {
        1
    } else if !plugin.controller {
        2
    } else {
        5
    };
    lemma_run_on(plugin, turn, 6, n);
    let controlled = plugin.run(turn, 6 + n);
    let m: nat = if plugin.created().connected {
        6
    } else {
        5
    };
    lemma_run_on(plugin, turn, 6 + n, m);
    assert(plugin.run(controlled, m).1 == SetupRequest::SetupProcessing(audio)) by {
        reveal_with_fuel(Plugin::run, 7);
    }
    assert(plugin.run(turn, 6 + n + m).1 == SetupRequest::SetupProcessing(audio));
}

/// A plugin with one fault is refused for that fault: what was asked for last is what failed.
pub proof fn law_each_fault_is_reported(setup: Setup, error: Vst3Error)
    ensures
        ({
            let no = SetupAnswer::Answer(false);
            let at = |stage: SetupStage| (Setup { stage, ..setup });
            let failure = |stage: SetupStage, answer: SetupAnswer|
                match at(stage).after(answer).1 {
                    SetupRequest::Failed { error, instance } => Some((error, instance)),
                    _ => None,
                };
            &&& failure(SetupStage::Module, SetupAnswer::Module(Err(error))) == Some(
                (RuntimeFailure::Probe(error), None::<RuntimeState>),
            )
            &&& failure(SetupStage::Host, no) == Some(
                (RuntimeFailure::InitializeFailed, None::<RuntimeState>),
            )
            &&& failure(SetupStage::Component, no) == Some(
                (RuntimeFailure::CreateProcessorFailed, None::<RuntimeState>),
            )
            &&& failure(SetupStage::Initialize, no) == Some(
                (RuntimeFailure::InitializeFailed, None::<RuntimeState>),
            )
            &&& failure(SetupStage::Processor, no) == Some(
                (RuntimeFailure::MissingAudioProcessor, None::<RuntimeState>),
            )
            &&& failure(SetupStage::ControllerHost, no) == Some(
                (RuntimeFailure::InitializeFailed, None::<RuntimeState>),
            )
            &&& failure(SetupStage::ControllerInitialize, no) == Some(
                (RuntimeFailure::InitializeFailed, None::<RuntimeState>),
            )
            &&& failure(SetupStage::Setup, no) == Some(
                (RuntimeFailure::SetupFailed, Some(setup.state)),
            )
            &&& failure(SetupStage::Activate, no) == Some(
                (RuntimeFailure::ActivateFailed, Some(setup.state)),
            )
            &&& failure(SetupStage::Process, no) == Some(
                (RuntimeFailure::ActivateFailed, Some(setup.state)),
            )
            &&& tuid_of(setup.class_id) is None ==> failure(
                SetupStage::Module,
                SetupAnswer::Module(Ok(())),
            ) == Some((RuntimeFailure::InvalidClassId(setup.class_id), None::<RuntimeState>))
        }),
{
}

/// A block has as many frames as the shorter of the two outputs, so that neither is overrun; it
/// has one output bus, and an input bus exactly if there is input. Only an instance that was taken
/// down plays no blocks.
pub proof fn law_block_fits_both_outputs(
    state: RuntimeState,
    left_frames: usize,
    right_frames: usize,
    has_input: bool,
)
    requires
        left_frames <= i32::MAX || right_frames <= i32::MAX,
    ensures
        state.block_plan(left_frames, right_frames, has_input) is None <==> state.destroyed,
        state.block_plan(left_frames, right_frames, has_input) matches Some(plan) ==> {
            &&& plan.num_samples <= left_frames
            &&& plan.num_samples <= right_frames
            &&& plan.num_samples == left_frames || plan.num_samples == right_frames
            &&& plan.num_outputs == 1
            &&& has_input ==> plan.num_inputs == 1
            &&& !has_input ==> plan.num_inputs == 0
        },
{
}

/// Every report of a failure says what failed, with the id where there is one.
pub proof fn law_runtime_failure_names_its_cause(id: Seq<char>, error: Vst3Error)
    ensures
        RuntimeFailure::MissingMetadata(id).text() == "VST3 plugin `"@ + id
            + "` is not registered"@,
        RuntimeFailure::InvalidClassId(id).text() == "invalid VST3 class id `"@ + id + "`"@,
        RuntimeFailure::CreateProcessorFailed.text() == "VST3 factory failed to create processor"@,
        RuntimeFailure::MissingAudioProcessor.text()
            == "VST3 processor does not implement IAudioProcessor"@,
        RuntimeFailure::InitializeFailed.text() == "VST3 processor initialize failed"@,
        RuntimeFailure::SetupFailed.text() == "VST3 processor setup failed"@,
        RuntimeFailure::ActivateFailed.text() == "VST3 processor activation failed"@,
        RuntimeFailure::Probe(error).text() == error.text(),
{
}

/// An instance is taken down by what is up of it: processing is stopped before the component is
/// deactivated, that before component and controller are disconnected, in this order, that before
/// the controller is terminated, and the component is terminated last. Each of these is called
/// exactly if it is up.
pub proof fn law_teardown_calls_are_in_order(state: RuntimeState, i: int, j: int)
    requires
        !state.destroyed,
        0 <= i < state.teardown().len(),
        0 <= j < state.teardown().len(),
    ensures
        ({
            let calls = state.teardown();
            &&& calls.contains(TeardownCall::StopProcessing) <==> state.processing
            &&& calls.contains(TeardownCall::Deactivate) <==> state.active
            &&& calls.contains(TeardownCall::DisconnectComponent) <==> state.connected
            &&& calls.contains(TeardownCall::DisconnectController) <==> state.connected
            &&& calls.contains(TeardownCall::TerminateController) <==> state.has_controller
            &&& calls.last() == TeardownCall::TerminateComponent
            &&& calls[i] == calls[j] ==> i == j
            &&& calls[i] == TeardownCall::StopProcessing && calls[j] == TeardownCall::Deactivate
                ==> i < j
            &&& calls[i] == TeardownCall::Deactivate && calls[j]
                == TeardownCall::DisconnectComponent ==> i < j
            &&& calls[i] == TeardownCall::StopProcessing && calls[j]
                == TeardownCall::DisconnectComponent ==> i < j
            &&& calls[i] == TeardownCall::DisconnectComponent && calls[j]
                == TeardownCall::DisconnectController ==> i < j
            &&& calls[i] == TeardownCall::DisconnectController && calls[j]
                == TeardownCall::TerminateController ==> i < j
            &&& calls[i] == TeardownCall::Deactivate && calls[j]
                == TeardownCall::TerminateController ==> i < j
            &&& calls[i] == TeardownCall::StopProcessing && calls[j]
                == TeardownCall::TerminateController ==> i < j
        }),
{
    law_teardown_is_ordered(state);
    let calls = state.teardown();
    if i < j {
        assert(rank(calls[i]) < rank(calls[j]));
    } else if j < i {
        assert(rank(calls[j]) < rank(calls[i]));
    }
}

/// Taking an instance down leaves what is known of its controller and connection, and marks it as
/// taken down; one that was taken down already calls for nothing.
pub proof fn law_taken_down_instance_is_marked(state: RuntimeState)
    ensures
        state.down().destroyed,
        !state.destroyed ==> !state.down().active && !state.down().processing,
        state.down().has_controller == state.has_controller,
        state.down().connected == state.connected,
        state.destroyed ==> state.teardown().len() == 0 && state.down() == state,
{
}

/// Setting up is ready for every answer as long as the class id can be read two characters at a
/// time.
pub proof fn law_readable_class_id_is_ready(setup: Setup, answer: SetupAnswer)
    requires
        splits_in_pairs(setup.class_id),
    ensures
        setup.is_ready_for(answer),
{
}

/// The controller is the component itself or the one that the component names; where it gives
/// none, setting up goes on without. Component and controller are connected exactly if both have
/// connection points and there is a controller.
pub proof fn law_controller_is_found_and_connected(
    setup: Setup,
    class_id: Seq<u8>,
    component: bool,
    controller: bool,
)
    ensures
        ({
            let at = |stage: SetupStage| (Setup { stage, ..setup });
            let yes = SetupAnswer::Answer(true);
            let no = SetupAnswer::Answer(false);
            let points = SetupAnswer::Connections { component, controller };
            let asked = at(SetupStage::Connections).after(points);
            &&& at(SetupStage::Processor).after(yes).1 is GetController
            &&& at(SetupStage::Controller).after(yes).1 is MakeControllerHost
            &&& at(SetupStage::Controller).after(no).1 is GetControllerClassId
            &&& at(SetupStage::ControllerId).after(SetupAnswer::ClassId(Some(class_id))).1
                == SetupRequest::CreateController(class_id)
            &&& at(SetupStage::ControllerId).after(SetupAnswer::ClassId(None)).1 is GetConnections
            &&& at(SetupStage::ControllerInstance).after(yes).1 is MakeControllerHost
            &&& at(SetupStage::ControllerInstance).after(no).1 is GetConnections
            &&& at(SetupStage::Handler).after(SetupAnswer::Done).1 is GetConnections
            &&& at(SetupStage::Handler).after(SetupAnswer::Done).0.state.has_controller
            &&& component && controller && setup.state.has_controller ==> asked.1 is Connect
                && asked.0.state.connected
            &&& !(component && controller && setup.state.has_controller) ==> asked.1
                == SetupRequest::SetBusArrangements(setup.audio.input_count)
                && asked.0.state.connected == setup.state.connected
            &&& at(SetupStage::Connect).after(SetupAnswer::Done).1
                == SetupRequest::SetBusArrangements(setup.audio.input_count)
            &&& tuid_of(setup.class_id) matches Some(id) ==> at(SetupStage::Module).after(
                SetupAnswer::Module(Ok(())),
            ).1 is MakeHost && at(SetupStage::Host).after(yes).1
                == SetupRequest::CreateComponent(id)
        }),
{
}

} // verus!
