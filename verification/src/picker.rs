//! Choosing a graphics protocol from what is known of the terminal.
use vstd::prelude::*;

use crate::errors::Errors;
use crate::picker::cap_parser::QueryStdioOptions;
use crate::picker::environment::{
    detect_tmux_and_outer_protocol_from_env, hints_at_iterm2, hints_at_outer_iterm2, inside_tmux,
    iterm2_from_env, iterm2_if, Environment,
};
use crate::picker::interpret::{first_known, QueryOutcome};
use crate::types::{FontSize, Rgba, Size};

pub mod cap_parser;
pub mod environment;
pub mod environment_laws;
pub mod interpret;
pub mod laws;
pub mod parser_laws;
pub mod query;
pub mod query_laws;
pub mod replies;
pub mod session;

verus! {

/// What a terminal can do, or tells about itself.
#[derive(Debug, PartialEq, Clone)]
pub enum Capability {
    /// The kitty graphics protocol.
    Kitty,
    /// The sixel graphics protocol.
    Sixel,
    /// Operations on rectangles.
    RectangularOps,
    /// Kitty transmissions that are compressed with zlib (`o=z`). Only ever reported where it was
    /// probed for.
    KittyCompression,
    /// Kitty transmissions from a shared memory object (`t=s`), which only a terminal on this
    /// machine can read. Only ever reported where it was probed for.
    KittySharedMemory,
    /// The size of a cell in pixels, width first.
    CellSize(Option<(u16, u16)>),
    /// The text sizing protocol.
    TextSizingProtocol,
    /// The background color.
    Background(u8, u8, u8),
}

/// The graphics protocols that an image can be shown with.
#[derive(PartialEq, Eq, Structural, Clone, Debug, Copy)]
pub enum ProtocolType {
    Halfblocks,
    Sixel,
    Kitty,
    Iterm2,
}

impl ProtocolType {
    /// The protocol that comes after this one in the cycle of all four.
    pub open spec fn successor(self) -> ProtocolType {
        match self {
            ProtocolType::Halfblocks => ProtocolType::Sixel,
            ProtocolType::Sixel => ProtocolType::Kitty,
            ProtocolType::Kitty => ProtocolType::Iterm2,
            ProtocolType::Iterm2 => ProtocolType::Halfblocks,
        }
    }

    /// The protocol that comes after this one in the cycle of all four.
    pub fn next(&self) -> (r: ProtocolType)
        ensures
            r == self.successor(),
    {
        match self {
            ProtocolType::Halfblocks => ProtocolType::Sixel,
            ProtocolType::Sixel => ProtocolType::Kitty,
            ProtocolType::Kitty => ProtocolType::Iterm2,
            ProtocolType::Iterm2 => ProtocolType::Halfblocks,
        }
    }
}

/// Four steps lead through all protocols, and back.
pub proof fn protocols_form_a_cycle(p: ProtocolType)
    ensures
        p.successor().successor().successor().successor() == p,
        p.successor() != p,
        p.successor().successor() != p,
        p.successor().successor().successor() != p,
{
}

/// A random number.
///
/// Calls `rand::random`, of which nothing is trusted but that it returns, as it does unless the
/// system has no randomness to start the generator with.
#[verifier::external_body]
fn random_id() -> (r: u32) {
    rand::random()
}

/// What a [`Picker`] holds.
pub struct PickerState {
    pub font_size: FontSize,
    pub protocol_type: ProtocolType,
    pub background_color: Option<Rgba>,
    pub is_tmux: bool,
    pub capabilities: Seq<Capability>,
    pub kitty_shm: Option<u32>,
}

/// What is known of the terminal, and the protocol that follows from it.
#[derive(Clone, Debug)]
pub struct Picker {
    font_size: FontSize,
    protocol_type: ProtocolType,
    background_color: Option<Rgba>,
    is_tmux: bool,
    capabilities: Vec<Capability>,
    kitty_shm: Option<u32>,
}

impl View for Picker {
    type V = PickerState;

    closed spec fn view(&self) -> PickerState {
        PickerState {
            font_size: self.font_size,
            protocol_type: self.protocol_type,
            background_color: self.background_color,
            is_tmux: self.is_tmux,
            capabilities: self.capabilities@,
            kitty_shm: self.kitty_shm,
        }
    }
}

/// What is held where nothing is known. The size of a cell is an arbitrary one: half blocks need
/// it only for its ratio of one to two.
pub open spec fn nothing_known(is_tmux: bool) -> PickerState {
    PickerState {
        font_size: FontSize { width: 10, height: 20 },
        protocol_type: ProtocolType::Halfblocks,
        background_color: None,
        is_tmux,
        capabilities: Seq::empty(),
        kitty_shm: None,
    }
}

/// What is held where the terminal has not answered: a protocol is of use only with the size of a
/// cell.
pub open spec fn unanswered(
    is_tmux: bool,
    hint: Option<ProtocolType>,
    font_size: Option<FontSize>,
) -> PickerState {
    match font_size {
        Some(font_size) => PickerState {
            font_size,
            protocol_type: or_halfblocks(hint),
            ..nothing_known(is_tmux)
        },
        None => nothing_known(is_tmux),
    }
}

/// The protocol, or half blocks, which work everywhere.
pub open spec fn or_halfblocks(protocol: Option<ProtocolType>) -> ProtocolType {
    match protocol {
        Some(p) => p,
        None => ProtocolType::Halfblocks,
    }
}

/// The protocol that the environment hints at: the hints at an outer terminal come first.
pub open spec fn hinted(env: Environment) -> Option<ProtocolType> {
    first_known(iterm2_if(hints_at_outer_iterm2(env)), iterm2_if(hints_at_iterm2(env)))
}

/// What is held where the terminal has answered. What it reports goes before the hints of the
/// environment. Shared memory is used only where the terminal has reported to read it.
pub open spec fn answered(
    env: Environment,
    kitty_shm: Option<u32>,
    protocol: Option<ProtocolType>,
    font_size: Option<FontSize>,
    capabilities: Seq<Capability>,
) -> PickerState {
    let kitty_shm = if capabilities.contains(Capability::KittySharedMemory) {
        kitty_shm
    } else {
        None
    };
    match font_size {
        Some(font_size) => PickerState {
            font_size,
            protocol_type: or_halfblocks(first_known(protocol, hinted(env))),
            background_color: None,
            is_tmux: inside_tmux(env),
            capabilities,
            kitty_shm,
        },
        None => PickerState { kitty_shm, ..nothing_known(inside_tmux(env)) },
    }
}

/// The failures after which the environment is all there is to go by.
pub open spec fn is_silence(err: Errors) -> bool {
    err is NoCap || err is NoStdinResponse || err is NoFontSize
}

/// What a protocol is set up with, besides the image.
#[derive(Clone, Copy, Debug, PartialEq, Eq)]
pub enum ProtocolSetup {
    Halfblocks,
    Sixel { is_tmux: bool },
    Kitty { unique_id: u32, is_tmux: bool, compression: bool, shm: Option<u32> },
    ITerm2 { is_tmux: bool },
}

/// How the protocol of a picker is set up.
pub open spec fn setup_of(picker: PickerState, unique_id: u32) -> ProtocolSetup {
    match picker.protocol_type {
        ProtocolType::Halfblocks => ProtocolSetup::Halfblocks,
        ProtocolType::Sixel => ProtocolSetup::Sixel { is_tmux: picker.is_tmux },
        ProtocolType::Kitty => ProtocolSetup::Kitty {
            unique_id,
            is_tmux: picker.is_tmux,
            compression: picker.capabilities.contains(Capability::KittyCompression),
            shm: picker.kitty_shm,
        },
        ProtocolType::Iterm2 => ProtocolSetup::ITerm2 { is_tmux: picker.is_tmux },
    }
}

/// How an image is to be resized before it is shown.
#[derive(Clone, Copy, Debug, PartialEq, Eq)]
pub struct ResizeTo {
    pub area: Size,
    pub font_size: FontSize,
    pub background_color: Option<Rgba>,
}

/// How an image is shown at one size.
#[derive(Clone, Copy, Debug, PartialEq, Eq)]
pub struct FixedProtocol {
    /// What is done to the image first, if anything.
    pub resize: Option<ResizeTo>,
    /// The cells that the image fills then.
    pub area: Size,
    pub setup: ProtocolSetup,
}

/// How an image is shown at one size: at the size that it has by itself where it need not be
/// resized, and at the size that it needs to be resized to otherwise.
pub open spec fn fixed_protocol(
    picker: PickerState,
    desired: Size,
    needed: Option<Size>,
    unique_id: u32,
) -> FixedProtocol {
    match needed {
        Some(area) => FixedProtocol {
            resize: Some(
                ResizeTo {
                    area,
                    font_size: picker.font_size,
                    background_color: picker.background_color,
                },
            ),
            area,
            setup: setup_of(picker, unique_id),
        },
        None => FixedProtocol {
            resize: None,
            area: desired,
            setup: setup_of(picker, unique_id),
        },
    }
}

/// How an image is shown that is resized while it is shown.
#[derive(Clone, Copy, Debug, PartialEq, Eq)]
pub struct ResizingProtocol {
    pub font_size: FontSize,
    pub background_color: Option<Rgba>,
    pub setup: ProtocolSetup,
}

/// How an image is shown that is resized while it is shown.
pub open spec fn resizing_protocol(picker: PickerState, unique_id: u32) -> ResizingProtocol {
    ResizingProtocol {
        font_size: picker.font_size,
        background_color: picker.background_color,
        setup: setup_of(picker, unique_id),
    }
}

/// Whether shared memory is among the capabilities.
fn reads_shared_memory(capabilities: &Vec<Capability>) -> (r: bool)
    ensures
        r == capabilities@.contains(Capability::KittySharedMemory),
{
    for i in 0..capabilities.len()
        invariant
            forall|j: int| 0 <= j < i ==> capabilities@[j] != Capability::KittySharedMemory,
    {
        if let Capability::KittySharedMemory = capabilities[i] {
            assert(capabilities@[i as int] == Capability::KittySharedMemory);
            return true;
        }
    }
    false
}

/// Whether compression is among the capabilities.
fn reads_compressed(capabilities: &Vec<Capability>) -> (r: bool)
    ensures
        r == capabilities@.contains(Capability::KittyCompression),
{
    for i in 0..capabilities.len()
        invariant
            forall|j: int| 0 <= j < i ==> capabilities@[j] != Capability::KittyCompression,
    {
        if let Capability::KittyCompression = capabilities[i] {
            assert(capabilities@[i as int] == Capability::KittyCompression);
            return true;
        }
    }
    false
}

/// The first of the two that is known.
fn either(a: Option<ProtocolType>, b: Option<ProtocolType>) -> (r: Option<ProtocolType>)
    ensures
        r == first_known(a, b),
{
    match a {
        Some(p) => Some(p),
        None => b,
    }
}

/// A picker from what could be found out without an answer of the terminal.
///
/// A protocol other than half blocks can be shown only with the size of a cell, so without one the
/// hint is not used.
pub fn fallback_picker(
    is_tmux: bool,
    protocol_type: Option<ProtocolType>,
    font_size: Option<FontSize>,
) -> (r: Picker)
    ensures
        r@ == unanswered(is_tmux, protocol_type, font_size),
{
    let mut picker = Picker::knowing_nothing(is_tmux);
    if let Some(font_size) = font_size {
        picker.font_size = font_size;
        picker.protocol_type = protocol_type.unwrap_or(ProtocolType::Halfblocks);
    }
    picker
}

impl Picker {
    /// A picker where nothing is known.
    fn knowing_nothing(is_tmux: bool) -> (r: Picker)
        ensures
            r@ == nothing_known(is_tmux),
    {
        let r = Picker {
            font_size: FontSize::new(10, 20),
            protocol_type: ProtocolType::Halfblocks,
            background_color: None,
            is_tmux,
            capabilities: Vec::new(),
            kitty_shm: None,
        };
        assert(r@.capabilities =~= Seq::empty());
        r
    }

    /// A picker from the terminal's reply to the query that is sent by default.
    pub fn from_query_stdio(
        env: &Environment,
        reply: Result<QueryOutcome, Errors>,
        fallback: Option<FontSize>,
    ) -> (r: Result<Picker, Errors>)
        ensures
            reply matches Ok(outcome) ==> (r matches Ok(p) && p@ == answered(
                *env,
                None,
                outcome.0,
                outcome.1,
                outcome.2@,
            )),
            reply matches Err(err) ==> if is_silence(err) {
                r matches Ok(p) && p@ == unanswered(inside_tmux(*env), hinted(*env), fallback)
            } else {
                r == Err::<Picker, Errors>(err)
            },
    {
        Picker::from_query_stdio_with_options(
            env,
            &QueryStdioOptions::default(),
            reply,
            fallback,
        )
    }

    /// A picker from the terminal's reply to a query with options.
    ///
    /// `fallback` is the size of a cell where the terminal has not told it. A terminal that has
    /// not answered may still be usable with it, and with the hints of the environment. A failure
    /// to read or write is handed on.
    pub fn from_query_stdio_with_options(
        env: &Environment,
        options: &QueryStdioOptions,
        reply: Result<QueryOutcome, Errors>,
        fallback: Option<FontSize>,
    ) -> (r: Result<Picker, Errors>)
        ensures
            reply matches Ok(outcome) ==> (r matches Ok(p) && p@ == answered(
                *env,
                options.kitty_shared_memory_object,
                outcome.0,
                outcome.1,
                outcome.2@,
            )),
            reply matches Err(err) ==> if is_silence(err) {
                r matches Ok(p) && p@ == unanswered(inside_tmux(*env), hinted(*env), fallback)
            } else {
                r == Err::<Picker, Errors>(err)
            },
    {
        let (is_tmux, tmux_proto) = detect_tmux_and_outer_protocol_from_env(env);
        let env_proto = either(tmux_proto, iterm2_from_env(env));
        match reply {
            Ok((capability_proto, font_size, capabilities)) => {
                let kitty_shm = if reads_shared_memory(&capabilities) {
                    options.kitty_shared_memory_object
                } else {
                    None
                };
                // The terminal knows best: the environment may be stale.
                let protocol_type = either(capability_proto, env_proto).unwrap_or(
                    ProtocolType::Halfblocks,
                );
                match font_size {
                    Some(font_size) => Ok(
                        Picker {
                            font_size,
                            protocol_type,
                            background_color: None,
                            is_tmux,
                            capabilities,
                            kitty_shm,
                        },
                    ),
                    None => {
                        let mut picker = Picker::knowing_nothing(is_tmux);
                        picker.kitty_shm = kitty_shm;
                        Ok(picker)
                    },
                }
            },
            Err(err) => match err {
                Errors::NoCap | Errors::NoStdinResponse | Errors::NoFontSize => Ok(
                    fallback_picker(is_tmux, env_proto, fallback),
                ),
                err => Err(err),
            },
        }
    }

    /// A picker that works only with half blocks.
    pub fn halfblocks(env: &Environment) -> (r: Picker)
        ensures
            r@ == nothing_known(inside_tmux(*env)),
    {
        let (is_tmux, _) = detect_tmux_and_outer_protocol_from_env(env);
        Picker::knowing_nothing(is_tmux)
    }

    /// A picker from the size of a cell, and the hints of the environment. Querying the terminal
    /// serves better.
    pub fn from_fontsize(env: &Environment, font_size: FontSize) -> (r: Picker)
        ensures
            r@ == unanswered(inside_tmux(*env), hinted(*env), Some(font_size)),
    {
        let (is_tmux, tmux_proto) = detect_tmux_and_outer_protocol_from_env(env);
        let protocol_type = either(tmux_proto, iterm2_from_env(env)).unwrap_or(
            ProtocolType::Halfblocks,
        );
        let r = Picker {
            font_size,
            protocol_type,
            background_color: None,
            is_tmux,
            capabilities: Vec::new(),
            kitty_shm: None,
        };
        assert(r@.capabilities =~= Seq::empty());
        r
    }

    /// The protocol that images are shown with.
    pub fn protocol_type(&self) -> (r: ProtocolType)
        ensures
            r == self@.protocol_type,
    {
        self.protocol_type
    }

    /// Forces a protocol.
    pub fn set_protocol_type(&mut self, protocol_type: ProtocolType)
        ensures
            final(self)@ == (PickerState { protocol_type, ..old(self)@ }),
    {
        self.protocol_type = protocol_type;
    }

    /// The size of a cell.
    pub fn font_size(&self) -> (r: FontSize)
        ensures
            r == self@.font_size,
    {
        self.font_size
    }

    /// Sets the color behind images, which is transparent black where it is none.
    pub fn set_background_color<T: Into<Rgba>>(&mut self, background_color: Option<T>)
        ensures
            background_color is None ==> final(self)@ == (PickerState {
                background_color: None,
                ..old(self)@
            }),
            background_color matches Some(color) ==> {
                &&& final(self)@.background_color is Some
                &&& call_ensures(T::into, (color,), final(self)@.background_color->0)
                &&& final(self)@ == (PickerState {
                    background_color: final(self)@.background_color,
                    ..old(self)@
                })
            },
    {
        self.background_color = match background_color {
            Some(color) => Some(color.into()),
            None => None,
        };
    }

    /// All capabilities that the terminal has reported.
    pub fn capabilities(&self) -> (r: &Vec<Capability>)
        ensures
            r@ == self@.capabilities,
    {
        &self.capabilities
    }

    /// How the protocol is set up, with `unique_id` for kitty to know the image by.
    pub fn setup(&self, unique_id: u32) -> (r: ProtocolSetup)
        ensures
            r == setup_of(self@, unique_id),
    {
        match self.protocol_type {
            ProtocolType::Halfblocks => ProtocolSetup::Halfblocks,
            ProtocolType::Sixel => ProtocolSetup::Sixel { is_tmux: self.is_tmux },
            ProtocolType::Kitty => ProtocolSetup::Kitty {
                unique_id,
                is_tmux: self.is_tmux,
                compression: reads_compressed(&self.capabilities),
                shm: self.kitty_shm,
            },
            ProtocolType::Iterm2 => ProtocolSetup::ITerm2 { is_tmux: self.is_tmux },
        }
    }

    /// How the protocol is set up, with a random number for kitty to know the image by.
    pub fn new_protocol_raw(&self) -> (r: ProtocolSetup)
        ensures
            exists|unique_id: u32| r == #[trigger] setup_of(self@, unique_id),
    {
        self.setup(random_id())
    }

    /// How an image is shown at one size. `desired` is the size in cells that it has by itself,
    /// and `needed` is the size that it needs to be resized to, if it needs to be.
    pub fn new_protocol(&self, desired: Size, needed: Option<Size>) -> (r: FixedProtocol)
        ensures
            exists|unique_id: u32|
                r == #[trigger] fixed_protocol(self@, desired, needed, unique_id),
    {
        self.new_protocol_with_id(desired, needed, random_id())
    }

    /// How an image is shown at one size, with `unique_id` for kitty to know the image by.
    pub fn new_protocol_with_id(
        &self,
        desired: Size,
        needed: Option<Size>,
        unique_id: u32,
    ) -> (r: FixedProtocol)
        ensures
            r == fixed_protocol(self@, desired, needed, unique_id),
    {
        let setup = self.setup(unique_id);
        match needed {
            Some(area) => {
                let resize = ResizeTo {
                    area,
                    font_size: self.font_size,
                    background_color: self.background_color,
                };
                FixedProtocol { resize: Some(resize), area, setup }
            },
            None => FixedProtocol { resize: None, area: desired, setup },
        }
    }

    /// How an image is shown that is resized while it is shown.
    pub fn new_resize_protocol(&self) -> (r: ResizingProtocol)
        ensures
            exists|unique_id: u32| r == #[trigger] resizing_protocol(self@, unique_id),
    {
        self.new_resize_protocol_with_id(random_id())
    }

    /// How an image is shown that is resized while it is shown, with `unique_id` for kitty to know
    /// the image by.
    pub fn new_resize_protocol_with_id(&self, unique_id: u32) -> (r: ResizingProtocol)
        ensures
            r == resizing_protocol(self@, unique_id),
    {
        ResizingProtocol {
            font_size: self.font_size,
            background_color: self.background_color,
            setup: self.setup(unique_id),
        }
    }
}

} // verus!
