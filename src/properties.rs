use vstd::prelude::*;

use crate::decoder::{
    decode_image, header_geometry, jxl_decodes, jxl_header_geometry, oriented, oriented_size,
};
use crate::error::CodecError;

verus! {

/// Class identifier of the property handler.
pub const PROPERTY_STORE_CLSID: u128 = 0x95ffe0f8_ab15_4751_a2f3_cfafdbf13664;

/// Format identifier of the image summary property set.
pub const PSGUID_IMAGESUMMARYINFORMATION: u128 = 0x6444048F_4C8B_11D1_8B70_080036B11A03;

/// Property identifier of the image width, in pixels.
pub const PID_IMAGE_WIDTH: u32 = 3;

/// Property identifier of the image height, in pixels.
pub const PID_IMAGE_HEIGHT: u32 = 4;

/// Property identifier of the "width x height" summary.
pub const PID_IMAGE_DIMENSIONS: u32 = 13;

/// Key of a property: its property set and its identifier within the set.
#[derive(Debug, Clone, Copy, PartialEq, Eq, Structural)]
pub struct PropertyKey {
    pub fmtid: u128,
    pub pid: u32,
}

/// Value of a property.
#[derive(Debug, Clone, PartialEq, Eq)]
pub enum PropertyValue {
    UInt32(u32),
    Text(String),
}

pub open spec fn digit_char(d: int) -> char {
    if d == 0 {
        '0'
    } else if d == 1 {
        '1'
    } else if d == 2 {
        '2'
    } else if d == 3 {
        '3'
    } else if d == 4 {
        '4'
    } else if d == 5 {
        '5'
    } else if d == 6 {
        '6'
    } else if d == 7 {
        '7'
    } else if d == 8 {
        '8'
    } else {
        '9'
    }
}

/// Decimal digits of `n`, most significant first, without leading zeros.
pub open spec fn decimal(n: nat) -> Seq<char>
    decreases n,
{
    if n < 10 {
        seq![digit_char(n as int)]
    } else {
        decimal(n / 10).push(digit_char((n % 10) as int))
    }
}

/// The dimensions summary: width, " x ", height.
pub open spec fn dimensions_text(width: u32, height: u32) -> Seq<char> {
    decimal(width as nat) + seq![' ', 'x', ' '] + decimal(height as nat)
}

fn digit_str(d: u32) -> (r: &'static str)
    requires
        d < 10,
    ensures
        r@ == seq![digit_char(d as int)],
{
    proof {
        reveal_strlit("0");
        reveal_strlit("1");
        reveal_strlit("2");
        reveal_strlit("3");
        reveal_strlit("4");
        reveal_strlit("5");
        reveal_strlit("6");
        reveal_strlit("7");
        reveal_strlit("8");
        reveal_strlit("9");
    }
    if d == 0 {
        "0"
    } else if d == 1 {
        "1"
    } else if d == 2 {
        "2"
    } else if d == 3 {
        "3"
    } else if d == 4 {
        "4"
    } else if d == 5 {
        "5"
    } else if d == 6 {
        "6"
    } else if d == 7 {
        "7"
    } else if d == 8 {
        "8"
    } else {
        "9"
    }
}

/// Appends the decimal digits of `n`.
fn push_decimal(out: &mut String, n: u32)
    ensures
        final(out)@ == old(out)@ + decimal(n as nat),
    decreases n,
{
    if n >= 10 {
        push_decimal(out, n / 10);
    }
    out.append(digit_str(n % 10));
    proof {
        if n >= 10 {
            assert(decimal(n as nat) == decimal((n / 10) as nat).push(digit_char((n % 10) as int)));
        }
    }
    assert(final(out)@ =~= old(out)@ + decimal(n as nat));
}

/// The dimensions summary of an image, such as "1024 x 768".
pub fn dimensions_summary(width: u32, height: u32) -> (r: String)
    ensures
        r@ == dimensions_text(width, height),
{
    let mut text = String::new();
    push_decimal(&mut text, width);
    proof {
        reveal_strlit(" x ");
    }
    text.append(" x ");
    push_decimal(&mut text, height);
    assert(text@ =~= dimensions_text(width, height));
    text
}

/// A read-only property store holding the dimensions of an image.
pub struct JXLPropertyStore {
    props: Option<Vec<(PropertyKey, PropertyValue)>>,
}

impl Default for JXLPropertyStore {
    fn default() -> (r: Self)
        ensures
            r.props_spec() is None,
    {
        JXLPropertyStore::new()
    }
}

impl JXLPropertyStore {
    /// The stored properties, once the store was initialised.
    pub closed spec fn props_spec(&self) -> Option<Seq<(PropertyKey, PropertyValue)>> {
        match self.props {
            Some(v) => Some(v@),
            None => None,
        }
    }

    /// An empty store that has not been initialised.
    pub fn new() -> (r: Self)
        ensures
            r.props_spec() is None,
    {
        JXLPropertyStore { props: None }
    }

    fn get_props(&self) -> (r: Result<&Vec<(PropertyKey, PropertyValue)>, CodecError>)
        ensures
            match self.props_spec() {
                Some(p) => r matches Ok(v) && v@ == p,
                None => r == Err::<&Vec<(PropertyKey, PropertyValue)>, CodecError>(
                    CodecError::NotInitialized,
                ),
            },
    {
        match &self.props {
            Some(props) => Ok(props),
            None => Err(CodecError::NotInitialized),
        }
    }

    /// Decodes `bytes` and stores the image's oriented width, height and
    /// dimensions summary; an image that does not decode leaves the store
    /// as it was and reports the decoder's message.
    pub fn Initialize(&mut self, bytes: &[u8]) -> (r: Result<(), CodecError>)
        ensures
            r is Ok <==> jxl_decodes(bytes@),
            match r {
                Ok(()) => final(self).holds_dimensions(
                    oriented(jxl_header_geometry(bytes@)).0,
                    oriented(jxl_header_geometry(bytes@)).1,
                ),
                Err(e) => e is BadImage && *final(self) == *old(self),
            },
    {
        let source = std::rc::Rc::new(vstd::slice::slice_to_vec(bytes));
        match decode_image(source) {
            Err(message) => Err(CodecError::BadImage(message)),
            Ok(image) => {
                let (width, height) = oriented_size(header_geometry(&image));
                self.set_dimensions(width, height);
                Ok(())
            },
        }
    }

    /// Whether the store holds exactly the properties of a `width` by
    /// `height` image: width, height, then the summary text.
    pub open spec fn holds_dimensions(&self, width: u32, height: u32) -> bool {
        &&& self.props_spec() is Some
        &&& self.props_spec()->Some_0.len() == 3
        &&& self.props_spec()->Some_0[0] == (
            PropertyKey { fmtid: PSGUID_IMAGESUMMARYINFORMATION, pid: PID_IMAGE_WIDTH },
            PropertyValue::UInt32(width),
        )
        &&& self.props_spec()->Some_0[1] == (
            PropertyKey { fmtid: PSGUID_IMAGESUMMARYINFORMATION, pid: PID_IMAGE_HEIGHT },
            PropertyValue::UInt32(height),
        )
        &&& self.props_spec()->Some_0[2].0 == PropertyKey {
            fmtid: PSGUID_IMAGESUMMARYINFORMATION,
            pid: PID_IMAGE_DIMENSIONS,
        }
        &&& self.props_spec()->Some_0[2].1 matches PropertyValue::Text(t) && t@ == dimensions_text(
            width,
            height,
        )
    }

    /// Replaces the stored properties with those of a `width` by `height`
    /// image.
    pub fn set_dimensions(&mut self, width: u32, height: u32)
        ensures
            final(self).holds_dimensions(width, height),
    {
        let mut props: Vec<(PropertyKey, PropertyValue)> = Vec::new();
        props.push(
            (
                PropertyKey { fmtid: PSGUID_IMAGESUMMARYINFORMATION, pid: PID_IMAGE_WIDTH },
                PropertyValue::UInt32(width),
            ),
        );
        props.push(
            (
                PropertyKey { fmtid: PSGUID_IMAGESUMMARYINFORMATION, pid: PID_IMAGE_HEIGHT },
                PropertyValue::UInt32(height),
            ),
        );
        props.push(
            (
                PropertyKey { fmtid: PSGUID_IMAGESUMMARYINFORMATION, pid: PID_IMAGE_DIMENSIONS },
                PropertyValue::Text(dimensions_summary(width, height)),
            ),
        );
        self.props = Some(props);
    }

    /// Number of stored properties.
    pub fn GetCount(&self) -> (r: Result<u32, CodecError>)
        ensures
            match self.props_spec() {
                Some(p) => p.len() <= u32::MAX && r == Ok::<u32, CodecError>(p.len() as u32)
                    || p.len() > u32::MAX && r == Err::<u32, CodecError>(
                    CodecError::InvalidArgument,
                ),
                None => r == Err::<u32, CodecError>(CodecError::NotInitialized),
            },
    {
        let props = self.get_props()?;
        if props.len() > u32::MAX as usize {
            return Err(CodecError::InvalidArgument);
        }
        Ok(props.len() as u32)
    }

    /// Key of the property at `index`.
    pub fn GetAt(&self, index: u32) -> (r: Result<PropertyKey, CodecError>)
        ensures
            match self.props_spec() {
                Some(p) => if index < p.len() {
                    r == Ok::<PropertyKey, CodecError>(p[index as int].0)
                } else {
                    r == Err::<PropertyKey, CodecError>(CodecError::InvalidArgument)
                },
                None => r == Err::<PropertyKey, CodecError>(CodecError::NotInitialized),
            },
    {
        let props = self.get_props()?;
        if index as usize >= props.len() {
            return Err(CodecError::InvalidArgument);
        }
        Ok(props[index as usize].0)
    }

    /// Value stored under `key`, or `None` when no property has that key.
    pub fn GetValue(&self, key: PropertyKey) -> (r: Result<Option<PropertyValue>, CodecError>)
        ensures
            match self.props_spec() {
                Some(p) => match r {
                    Ok(Some(v)) => exists|i: int| 0 <= i < p.len() && p[i] == (key, v),
                    Ok(None) => forall|i: int| 0 <= i < p.len() ==> p[i].0 != key,
                    Err(_) => false,
                },
                None => r == Err::<Option<PropertyValue>, CodecError>(CodecError::NotInitialized),
            },
    {
        let props = self.get_props()?;
        let mut i: usize = 0;
        while i < props.len()
            invariant
                i <= props@.len(),
                self.props_spec() == Some(props@),
                forall|j: int| 0 <= j < i ==> props@[j].0 != key,
            decreases props@.len() - i,
        {
            let entry = &props[i];
            if entry.0 == key {
                let value = match &entry.1 {
                    PropertyValue::UInt32(n) => PropertyValue::UInt32(*n),
                    PropertyValue::Text(t) => PropertyValue::Text(t.clone()),
                };
                let ghost stored = self.props_spec()->Some_0;
                assert(stored[i as int] == (key, value));
                return Ok(Some(value));
            }
            i += 1;
        }
        Ok(None)
    }

    /// The store is read-only.
    pub fn SetValue(&self, key: PropertyKey, value: PropertyValue) -> (r: Result<(), CodecError>)
        ensures
            r == Err::<(), CodecError>(CodecError::UnsupportedOperation),
    {
        Err(CodecError::UnsupportedOperation)
    }

    /// The store is read-only.
    pub fn Commit(&self) -> (r: Result<(), CodecError>)
        ensures
            r == Err::<(), CodecError>(CodecError::UnsupportedOperation),
    {
        Err(CodecError::UnsupportedOperation)
    }

    /// No property is writable.
    pub fn IsPropertyWritable(&self, key: PropertyKey) -> (r: Result<(), CodecError>)
        ensures
            r == Err::<(), CodecError>(CodecError::UnsupportedOperation),
    {
        Err(CodecError::UnsupportedOperation)
    }
}

} // verus!
