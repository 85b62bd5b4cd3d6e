//! Events dispatched by the display once per frame tick: fixed 9-byte binary
//! records, each a kind byte followed by a big-endian `u64` payload.

use vstd::prelude::*;

verus! {

/// The different kinds of events that the display dispatches.
#[derive(Debug, Clone, Copy, PartialEq, Eq, Structural)]
pub enum EventKind {
    FrameFinished,
    KeyPressed,
    KeyReleased,
    MouseMoved,
    MousePressed,
    MouseReleased,
    InstructionBufferEmpty,
}

/// An event dispatched by the display, letting other applications observe it.
/// `data` packs the variant's payload: a key code, a mouse button, or a
/// mouse position.
#[derive(Debug, Clone, Copy, PartialEq, Eq, Structural)]
pub struct Event {
    /// The event kind.
    pub kind: EventKind,
    /// The event data.
    pub data: u64,
}

/// A raw platform key code.
#[derive(Debug, Clone, Copy, PartialEq, Eq, Structural)]
pub struct KeyCode(pub u64);

/// A raw platform mouse button code.
#[derive(Debug, Clone, Copy, PartialEq, Eq, Structural)]
pub struct MouseButton(pub u64);

/// Failure to read an event or its payload.
#[derive(Debug, Clone, Copy, PartialEq, Eq, Structural)]
pub enum EventError {
    /// The kind byte of a record is none of the known values.
    UnknownKind(u8),
    /// The event queried for a key code is not a key event.
    NotKeyEvent,
    /// The event queried for a mouse position is not a mouse-moved event.
    NotMouseMoved,
}

/// The wire code of each event kind.
pub open spec fn event_kind_code(k: EventKind) -> u8 {
    match k {
        EventKind::FrameFinished => 0,
        EventKind::KeyPressed => 1,
        EventKind::KeyReleased => 2,
        EventKind::MouseMoved => 3,
        EventKind::MousePressed => 4,
        EventKind::MouseReleased => 5,
        EventKind::InstructionBufferEmpty => 6,
    }
}

/// The event kind selected by a wire byte, if any.
pub open spec fn spec_event_kind_of(b: u8) -> Option<EventKind> {
    if b == 0 {
        Some(EventKind::FrameFinished)
    } else if b == 1 {
        Some(EventKind::KeyPressed)
    } else if b == 2 {
        Some(EventKind::KeyReleased)
    } else if b == 3 {
        Some(EventKind::MouseMoved)
    } else if b == 4 {
        Some(EventKind::MousePressed)
    } else if b == 5 {
        Some(EventKind::MouseReleased)
    } else if b == 6 {
        Some(EventKind::InstructionBufferEmpty)
    } else {
        None
    }
}

/// The value of eight bytes read big-endian.
pub open spec fn be_u64_val(b: Seq<u8>) -> int
    recommends
        b.len() == 8,
{
    b[0] * 0x100000000000000 + b[1] * 0x1000000000000 + b[2] * 0x10000000000 + b[3] * 0x100000000
        + b[4] * 0x1000000 + b[5] * 0x10000 + b[6] * 0x100 + b[7]
}

/// What decoding a 9-byte event record yields.
pub open spec fn spec_event_decode(b: Seq<u8>) -> Result<Event, EventError>
    recommends
        b.len() == 9,
{
    match spec_event_kind_of(b[0]) {
        Some(k) => Ok(Event { kind: k, data: be_u64_val(b.skip(1)) as u64 }),
        None => Err(EventError::UnknownKind(b[0])),
    }
}

/// What encoding an event yields: the kind byte, then the payload big-endian.
pub open spec fn spec_event_encode(e: Event) -> Seq<u8> {
    seq![
        event_kind_code(e.kind),
        (e.data / 0x100000000000000) as u8,
        ((e.data / 0x1000000000000) % 0x100) as u8,
        ((e.data / 0x10000000000) % 0x100) as u8,
        ((e.data / 0x100000000) % 0x100) as u8,
        ((e.data / 0x1000000) % 0x100) as u8,
        ((e.data / 0x10000) % 0x100) as u8,
        ((e.data / 0x100) % 0x100) as u8,
        (e.data % 0x100) as u8,
    ]
}

impl EventKind {
    /// The wire code of this kind.
    pub fn to_byte(&self) -> (r: u8)
        ensures
            r == event_kind_code(*self),
    {
        match self {
            EventKind::FrameFinished => 0,
            EventKind::KeyPressed => 1,
            EventKind::KeyReleased => 2,
            EventKind::MouseMoved => 3,
            EventKind::MousePressed => 4,
            EventKind::MouseReleased => 5,
            EventKind::InstructionBufferEmpty => 6,
        }
    }

    /// Select the event kind named by a wire byte.
    pub fn try_from_byte(value: u8) -> (r: Result<EventKind, EventError>)
        ensures
            r == match spec_event_kind_of(value) {
                Some(k) => Ok::<EventKind, EventError>(k),
                None => Err::<EventKind, EventError>(EventError::UnknownKind(value)),
            },
    {
        match value {
            0 => Ok(EventKind::FrameFinished),
            1 => Ok(EventKind::KeyPressed),
            2 => Ok(EventKind::KeyReleased),
            3 => Ok(EventKind::MouseMoved),
            4 => Ok(EventKind::MousePressed),
            5 => Ok(EventKind::MouseReleased),
            6 => Ok(EventKind::InstructionBufferEmpty),
            _ => Err(EventError::UnknownKind(value)),
        }
    }
}

impl Event {
    /// Create a new event.
    pub fn new(kind: EventKind, data: u64) -> (r: Self)
        ensures
            r == (Event { kind, data }),
    {
        Self { kind, data }
    }

    /// Create a new key pressed event.
    pub fn key_pressed(code: KeyCode) -> (r: Self)
        ensures
            r == (Event { kind: EventKind::KeyPressed, data: code.0 }),
    {
        Self::new(EventKind::KeyPressed, code.0)
    }

    /// Create a new key released event.
    pub fn key_released(code: KeyCode) -> (r: Self)
        ensures
            r == (Event { kind: EventKind::KeyReleased, data: code.0 }),
    {
        Self::new(EventKind::KeyReleased, code.0)
    }

    /// Create a new mouse moved event: x in the high 32 bits of the payload,
    /// y in the low 32 bits.
    pub fn mouse_moved(x: u32, y: u32) -> (r: Self)
        ensures
            r.kind == EventKind::MouseMoved,
            r.data == x * 0x100000000 + y,
    {
        let data: u64 = (x as u64) * 0x100000000 + (y as u64);
        Self::new(EventKind::MouseMoved, data)
    }

    /// Create a new mouse pressed event.
    pub fn mouse_pressed(button: MouseButton) -> (r: Self)
        ensures
            r == (Event { kind: EventKind::MousePressed, data: button.0 }),
    {
        Self::new(EventKind::MousePressed, button.0)
    }

    /// Create a new mouse released event.
    pub fn mouse_released(button: MouseButton) -> (r: Self)
        ensures
            r == (Event { kind: EventKind::MouseReleased, data: button.0 }),
    {
        Self::new(EventKind::MouseReleased, button.0)
    }

    /// Create a new frame finished event.
    pub fn frame_finished() -> (r: Self)
        ensures
            r == (Event { kind: EventKind::FrameFinished, data: 0u64 }),
    {
        Self::new(EventKind::FrameFinished, 0)
    }

    /// Get the key code of the event; an error unless it is a key event.
    pub fn key_code(&self) -> (r: Result<KeyCode, EventError>)
        ensures
            r == if self.kind is KeyPressed || self.kind is KeyReleased {
                Ok::<KeyCode, EventError>(KeyCode(self.data))
            } else {
                Err::<KeyCode, EventError>(EventError::NotKeyEvent)
            },
    {
        match self.kind {
            EventKind::KeyPressed | EventKind::KeyReleased => Ok(KeyCode(self.data)),
            _ => Err(EventError::NotKeyEvent),
        }
    }

    /// Get the mouse position of the event; an error unless it is a
    /// mouse-moved event.
    pub fn mouse_position(&self) -> (r: Result<(u32, u32), EventError>)
        ensures
            r == if self.kind is MouseMoved {
                Ok::<(u32, u32), EventError>(
                    ((self.data / 0x100000000) as u32, (self.data % 0x100000000) as u32),
                )
            } else {
                Err::<(u32, u32), EventError>(EventError::NotMouseMoved)
            },
    {
        match self.kind {
            EventKind::MouseMoved => {
                let ghost d: u64 = self.data;
                let x = (self.data / 0x100000000) as u32;
                let y = (self.data % 0x100000000) as u32;
                assert(d / 0x100000000 < 0x100000000) by (bit_vector);
                Ok((x, y))
            },
            _ => Err(EventError::NotMouseMoved),
        }
    }

    /// Parse a 9-byte record into an event.
    pub fn from_bytes(bytes: [u8; 9]) -> (r: Result<Self, EventError>)
        ensures
            r == spec_event_decode(bytes@),
    {
        let kind = EventKind::try_from_byte(bytes[0])?;
        let data: u64 = (bytes[1] as u64) * 0x100000000000000 + (bytes[2] as u64) * 0x1000000000000
            + (bytes[3] as u64) * 0x10000000000 + (bytes[4] as u64) * 0x100000000 + (
        bytes[5] as u64) * 0x1000000 + (bytes[6] as u64) * 0x10000 + (bytes[7] as u64) * 0x100 + (
        bytes[8] as u64);
        proof {
            assert(bytes@.skip(1) =~= seq![
                bytes@[1],
                bytes@[2],
                bytes@[3],
                bytes@[4],
                bytes@[5],
                bytes@[6],
                bytes@[7],
                bytes@[8],
            ]);
        }
        Ok(Self::new(kind, data))
    }

    /// Encode the event as a 9-byte record, the inverse of
    /// [`Event::from_bytes`].
    pub fn to_bytes(&self) -> (r: [u8; 9])
        ensures
            r@ == spec_event_encode(*self),
    {
        let r: [u8; 9] = [
            self.kind.to_byte(),
            (self.data / 0x100000000000000) as u8,
            ((self.data / 0x1000000000000) % 0x100) as u8,
            ((self.data / 0x10000000000) % 0x100) as u8,
            ((self.data / 0x100000000) % 0x100) as u8,
            ((self.data / 0x1000000) % 0x100) as u8,
            ((self.data / 0x10000) % 0x100) as u8,
            ((self.data / 0x100) % 0x100) as u8,
            (self.data % 0x100) as u8,
        ];
        assert(r@ =~= spec_event_encode(*self));
        r
    }
}

/// Encoding then decoding any event gives it back unchanged, for every event
/// kind and payload.
pub proof fn lemma_event_decode_encode(e: Event)
    ensures
        spec_event_decode(spec_event_encode(e)) == Ok::<Event, EventError>(e),
{
    let b = spec_event_encode(e);
    assert(spec_event_kind_of(b[0]) == Some(e.kind));
    assert(b.skip(1) =~= seq![b[1], b[2], b[3], b[4], b[5], b[6], b[7], b[8]]);
    let d = e.data;
    assert((d / 0x100000000000000) * 0x100000000000000 + ((d / 0x1000000000000) % 0x100)
        * 0x1000000000000 + ((d / 0x10000000000) % 0x100) * 0x10000000000 + ((d / 0x100000000)
        % 0x100) * 0x100000000 + ((d / 0x1000000) % 0x100) * 0x1000000 + ((d / 0x10000) % 0x100)
        * 0x10000 + ((d / 0x100) % 0x100) * 0x100 + d % 0x100 == d) by (bit_vector);
}

} // verus!
