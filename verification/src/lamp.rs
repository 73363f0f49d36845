//! The lamp: power, brightness, colour and model, each as requests to the
//! connection manager.

use crate::color::{
    brightness_byte, brightness_level, color_payload, encode_chrominance, pack_chrominance,
    ChromaticityLuminance, ClampToGamut,
};
use crate::fraction::Fraction;
use crate::gamut::PhilipsGamut;
use crate::gatt_manipulator::{Action, ActionView, Event, EventView, GattManipulator, Model, Request};
use vstd::prelude::*;
use vstd::utf8::{decode_utf8, valid_utf8};

verus! {

/// Identifier of the endpoint that holds the model's name.
pub const CHAR_MODEL: u128 = 0x00002a24_0000_1000_8000_00805f9b34fb;

/// Identifier of the power endpoint.
pub const CHAR_POWER: u128 = 0x932c32bd_0002_47a2_835a_a8d455b859dd;

/// Identifier of the brightness endpoint.
pub const CHAR_BRIGHTNESS: u128 = 0x932c32bd_0003_47a2_835a_a8d455b859dd;

/// Identifier of the colour endpoint.
pub const CHAR_COLOR: u128 = 0x932c32bd_0005_47a2_835a_a8d455b859dd;

/// The text that a sequence of bytes decodes to as UTF-8, each ill-formed
/// part replaced by U+FFFD.
pub uninterp spec fn utf8_lossy(bytes: Seq<u8>) -> Seq<char>;

/// `String::from_utf8_lossy` of std: the text is a function of the bytes
/// alone, here called `utf8_lossy`, and where the bytes are UTF-8 it is the
/// text that they encode.
#[verifier::external_body]
fn decode_lossy(bytes: &Vec<u8>) -> (text: String)
    ensures
        text@ == utf8_lossy(bytes@),
        valid_utf8(bytes@) ==> text@ == decode_utf8(bytes@),
{
    String::from_utf8_lossy(bytes).into_owned()
}

/// The payload of the power endpoint.
pub open spec fn power_payload(on: bool) -> Seq<u8> {
    seq![if on { 1u8 } else { 0u8 }]
}

/// The payload of the colour endpoint for two chromaticity coordinates.
pub open spec fn xy_payload(x: Fraction, y: Fraction) -> Seq<u8> {
    color_payload(x.steps_of(65535) as u16, y.steps_of(65535) as u16)
}

/// The payload of the brightness endpoint for a fraction of the greatest
/// luminance.
pub open spec fn brightness_payload(brightness: Fraction) -> Seq<u8> {
    seq![brightness_level(brightness) as u8]
}

/// The lamp as a mathematical value.
pub struct LampModel {
    pub conn: Model,
    pub gamut: PhilipsGamut,
    /// A write that waits for the one under way to end.
    pub queued: Option<(u128, Seq<u8>)>,
}

impl LampModel {
    /// A single write takes the place of whatever was under way or waiting.
    pub open spec fn write(self, id: u128, data: Seq<u8>) -> (LampModel, ActionView) {
        let (conn, action) = self.conn.begin(Request::Write, id, data);
        (LampModel { conn, queued: None, ..self }, action)
    }

    /// The colour `color`: its chromaticity clamped to the gamut and written
    /// first, its brightness written once that write is over.
    pub open spec fn color(self, color: ChromaticityLuminance, max_luma: u32) -> (
        LampModel,
        ActionView,
    ) {
        let clamped = color.clamped(&self.gamut);
        let level = Fraction { num: clamped.luma as i64, den: max_luma as u64 };
        let (conn, action) = self.conn.begin(
            Request::Write,
            CHAR_COLOR,
            xy_payload(clamped.x, clamped.y),
        );
        (
            LampModel {
                conn,
                queued: Some((CHAR_BRIGHTNESS, brightness_payload(level))),
                ..self
            },
            action,
        )
    }

    /// The lamp after `event`: the connection goes on, and where it is done
    /// while a write waits, that write starts.
    pub open spec fn after(self, event: EventView) -> (LampModel, ActionView) {
        let (conn, action) = self.conn.after(event);
        match (action, self.queued) {
            (ActionView::Done(_), Some((id, data))) => {
                let (conn, action) = conn.begin(Request::Write, id, data);
                (LampModel { conn, queued: None, ..self }, action)
            },
            _ => (LampModel { conn, ..self }, action),
        }
    }
}

/// A write that waits starts with the event that ends the write under way,
/// whatever its outcome, and not before: chrominance first, then brightness.
pub proof fn lemma_queued_write_follows(l: LampModel, event: EventView)
    ensures
        match (l.conn.after(event).1, l.queued) {
            (ActionView::Done(_), Some((id, data))) => {
                &&& l.after(event).1 == ActionView::QueryLink
                &&& l.after(event).0.conn.request == Request::Write
                &&& l.after(event).0.conn.id == id
                &&& l.after(event).0.conn.data == data
                &&& l.after(event).0.queued is None
            },
            _ => {
                &&& l.after(event).1 == l.conn.after(event).1
                &&& l.after(event).0.conn == l.conn.after(event).0
                &&& l.after(event).0.queued == l.queued
            },
        },
        l.after(event).0.gamut == l.gamut,
{
}

/// Setting a colour asks for the link, with the clamped chromaticity as the
/// bytes under way to the colour endpoint and the brightness waiting for
/// the brightness endpoint.
pub proof fn lemma_color_is_two_writes(l: LampModel, color: ChromaticityLuminance, max_luma: u32)
    ensures
        ({
            let (after, action) = l.color(color, max_luma);
            let clamped = color.clamped(&l.gamut);
            &&& action == ActionView::QueryLink
            &&& after.conn.request == Request::Write
            &&& after.conn.id == CHAR_COLOR
            &&& after.conn.data == xy_payload(clamped.x, clamped.y)
            &&& after.queued == Some(
                (
                    CHAR_BRIGHTNESS,
                    brightness_payload(Fraction { num: color.luma as i64, den: max_luma as u64 }),
                ),
            )
            &&& after.conn.cache == l.conn.cache
        }),
{
}

/// A lamp behind a connection manager.
pub struct Lamp {
    gattm: GattManipulator,
    gamut: PhilipsGamut,
    queued: Option<(u128, Vec<u8>)>,
}

impl View for Lamp {
    type V = LampModel;

    closed spec fn view(&self) -> LampModel {
        LampModel {
            conn: self.gattm@,
            gamut: self.gamut,
            queued: match self.queued {
                Some((id, data)) => Some((id, data@)),
                None => None,
            },
        }
    }
}

impl Lamp {
    /// The lamp behind `conn`, with the gamut of its family.
    pub fn new(conn: GattManipulator, gamut: PhilipsGamut) -> (lamp: Lamp)
        ensures
            lamp@ == (LampModel { conn: conn@, gamut, queued: None }),
    {
        Lamp { gattm: conn, gamut, queued: None }
    }

    /// The gamut that colours are clamped to.
    pub fn gamut(&self) -> (gamut: PhilipsGamut)
        ensures
            gamut == self@.gamut,
    {
        self.gamut
    }

    /// The connection manager, given back.
    pub fn into_connection(self) -> (conn: GattManipulator)
        ensures
            conn@ == self@.conn,
    {
        self.gattm
    }

    fn write(&mut self, id: u128, data: Vec<u8>) -> (action: Action)
        ensures
            final(self)@ == old(self)@.write(id, data@).0,
            action@ == old(self)@.write(id, data@).1,
    {
        self.queued = None;
        self.gattm.write_characteristic(id, data)
    }

    /// Starts switching the lamp on or off.
    pub fn set_power(&mut self, on: bool) -> (action: Action)
        ensures
            final(self)@ == old(self)@.write(CHAR_POWER, power_payload(on)).0,
            action@ == old(self)@.write(CHAR_POWER, power_payload(on)).1,
    {
        let mut data: Vec<u8> = Vec::new();
        data.push(if on { 1u8 } else { 0u8 });
        self.write(CHAR_POWER, data)
    }

    /// Starts setting colour and brightness from a chromaticity and a
    /// luminance. `max_luma` is the greatest luminance that can be shown at
    /// the chromaticity once it is clamped to the gamut, in the unit of
    /// `color.luma`.
    pub fn set_color(&mut self, color: &ChromaticityLuminance, max_luma: u32) -> (action: Action)
        ensures
            final(self)@ == old(self)@.color(*color, max_luma).0,
            action@ == old(self)@.color(*color, max_luma).1,
    {
        let xy_luma = color.clamp_to(&self.gamut);
        let xy = encode_chrominance(xy_luma.x, xy_luma.y);
        let level = brightness_byte(Fraction { num: xy_luma.luma as i64, den: max_luma as u64 });
        let mut brightness: Vec<u8> = Vec::new();
        brightness.push(level);
        let action = self.gattm.write_characteristic(CHAR_COLOR, pack_chrominance(xy.0, xy.1));
        self.queued = Some((CHAR_BRIGHTNESS, brightness));
        action
    }

    /// Starts setting the chromaticity as given, whatever the gamut.
    pub fn set_xy(&mut self, x: Fraction, y: Fraction) -> (action: Action)
        ensures
            final(self)@ == old(self)@.write(CHAR_COLOR, xy_payload(x, y)).0,
            action@ == old(self)@.write(CHAR_COLOR, xy_payload(x, y)).1,
    {
        let xy = encode_chrominance(x, y);
        self.write(CHAR_COLOR, pack_chrominance(xy.0, xy.1))
    }

    /// Starts setting the brightness to a fraction of the greatest.
    pub fn set_brightness(&mut self, brightness: Fraction) -> (action: Action)
        ensures
            final(self)@ == old(self)@.write(CHAR_BRIGHTNESS, brightness_payload(brightness)).0,
            action@ == old(self)@.write(CHAR_BRIGHTNESS, brightness_payload(brightness)).1,
    {
        let val_clamped = brightness_byte(brightness);
        let mut data: Vec<u8> = Vec::new();
        data.push(val_clamped);
        self.write(CHAR_BRIGHTNESS, data)
    }

    /// Starts reading the model's name.
    pub fn get_model(&mut self) -> (action: Action)
        ensures
            final(self)@ == (LampModel {
                conn: old(self)@.conn.begin(Request::Read, CHAR_MODEL, Seq::empty()).0,
                queued: None,
                ..old(self)@
            }),
            action@ == old(self)@.conn.begin(Request::Read, CHAR_MODEL, Seq::empty()).1,
    {
        self.queued = None;
        self.gattm.read_characteristic(CHAR_MODEL)
    }

    /// Starts dropping the link; nothing stays under way or waiting.
    pub fn disconnect(&mut self) -> (action: Action)
        ensures
            final(self)@ == (LampModel {
                conn: Model { phase: crate::gatt_manipulator::Phase::Idle, ..old(self)@.conn },
                queued: None,
                ..old(self)@
            }),
            action@ == ActionView::Disconnect,
    {
        self.queued = None;
        self.gattm.disconnect()
    }

    /// Takes what the radio answered and says what to ask of it next.
    pub fn advance(&mut self, event: Event) -> (action: Action)
        ensures
            final(self)@ == old(self)@.after(event@).0,
            action@ == old(self)@.after(event@).1,
    {
        let action = self.gattm.advance(event);
        match action {
            Action::Done(_) => match self.queued.take() {
                Some((id, data)) => self.gattm.write_characteristic(id, data),
                None => action,
            },
            _ => action,
        }
    }
}

/// The model's name from what the read of its endpoint gave: the bytes as
/// text, or no text where the lamp has no such endpoint.
pub fn model_name(answer: Option<&Vec<u8>>) -> (name: String)
    ensures
        name@ == match answer {
            Some(model_bytes) => utf8_lossy(model_bytes@),
            None => Seq::<char>::empty(),
        },
        answer matches Some(model_bytes) ==> (valid_utf8(model_bytes@) ==> name@ == decode_utf8(
            model_bytes@,
        )),
{
    match answer {
        Some(model_bytes) => decode_lossy(model_bytes),
        None => String::new(),
    }
}

} // verus!
