// Object type, object qualifier and measurement and calibration metadata
//  McObjectType - Measurement, Characteristic, Axis or Unspecified
//  McObjectQualifier - volatile or constant
//  McSupportData - metadata

use vstd::prelude::*;

use crate::mc_text::{McIdentifier, McText};

verus! {

//----------------------------------------------------------------------------------------------
// McObjectType

/// Object type Measurement, Characteristic or Axis instances or typedefs
#[derive(Debug, Clone, Copy, PartialEq, Eq, Structural)]
pub enum McObjectType {
    Unspecified,
    Measurement,
    Characteristic,
    Axis,
}

impl Default for McObjectType {
    fn default() -> (t: Self)
        ensures
            t == McObjectType::Unspecified,
    {
        McObjectType::Unspecified
    }
}

impl McObjectType {
    /// Measurement object
    pub fn is_measurement_object(self) -> (b: bool)
        ensures
            b == (self == McObjectType::Measurement),
    {
        self == McObjectType::Measurement
    }

    /// Calibration object: characteristic, axis, or not specified
    pub fn is_calibration_object(self) -> (b: bool)
        ensures
            b == (self == McObjectType::Characteristic || self == McObjectType::Axis || self
                == McObjectType::Unspecified),
    {
        self == McObjectType::Characteristic || self == McObjectType::Axis || self
            == McObjectType::Unspecified
    }

    /// Adjustable shared axis
    pub fn is_axis(self) -> (b: bool)
        ensures
            b == (self == McObjectType::Axis),
    {
        self == McObjectType::Axis
    }

    /// Characteristic object
    pub fn is_characteristic(self) -> (b: bool)
        ensures
            b == (self == McObjectType::Characteristic),
    {
        self == McObjectType::Characteristic
    }
}

//----------------------------------------------------------------------------------------------
// McObjectQualifier

/// Object qualifier, independent of the object type: volatile (modified by the target) or constant
#[derive(Debug, Clone, Copy, PartialEq, Eq, Structural)]
pub enum McObjectQualifier {
    Unspecified,
    /// continuously modified by the target
    Volatile,
    /// no async write possible, assumed volatile
    ReadOnly,
    /// assumed volatile
    NoAsyncAccess,
}

impl Default for McObjectQualifier {
    fn default() -> (q: Self)
        ensures
            q == McObjectQualifier::Unspecified,
    {
        McObjectQualifier::Unspecified
    }
}

impl McObjectQualifier {
    /// Assumed to be continuously modified by the target
    pub fn is_volatile(self) -> (b: bool)
        ensures
            b == (self != McObjectQualifier::Unspecified),
    {
        self != McObjectQualifier::Unspecified
    }

    pub fn is_unspecified(&self) -> (b: bool)
        ensures
            b == (*self == McObjectQualifier::Unspecified),
    {
        *self == McObjectQualifier::Unspecified
    }
}

//----------------------------------------------------------------------------------------------
// McSupportData

/// Metadata for measurement and calibration objects (characteristic or axis)
/// Characteristics may refer to axis objects and to conversion rules of fixed axes
#[derive(Debug, Clone, Copy)]
pub struct McSupportData {
    pub object_type: McObjectType,
    pub qualifier: McObjectQualifier,
    pub unit: McText,
    pub comment: McText,
    pub x_axis_ref: Option<McIdentifier>,
    pub y_axis_ref: Option<McIdentifier>,
    pub x_axis_conv: Option<McIdentifier>,
    pub y_axis_conv: Option<McIdentifier>,
}

/// Metadata with an object type, everything else empty
pub open spec fn support_new(object_type: McObjectType) -> McSupportData {
    McSupportData {
        object_type,
        qualifier: McObjectQualifier::Unspecified,
        unit: McText::empty_text(),
        comment: McText::empty_text(),
        x_axis_ref: None,
        y_axis_ref: None,
        x_axis_conv: None,
        y_axis_conv: None,
    }
}

impl Default for McSupportData {
    /// Metadata without object type, everything else empty
    fn default() -> (m: Self)
        ensures
            m.object_type == McObjectType::Unspecified,
            m.qualifier == McObjectQualifier::Unspecified,
            m.unit@.len() == 0,
            m.comment@.len() == 0,
            m.x_axis_ref is None,
            m.y_axis_ref is None,
            m.x_axis_conv is None,
            m.y_axis_conv is None,
    {
        McSupportData::new(McObjectType::Unspecified)
    }
}

impl McSupportData {
    /// Metadata with an object type, everything else empty
    pub fn new(object_type: McObjectType) -> (m: Self)
        ensures
            m == support_new(object_type),
            m.object_type == object_type,
            m.qualifier == McObjectQualifier::Unspecified,
            m.unit@.len() == 0,
            m.comment@.len() == 0,
            m.x_axis_ref is None,
            m.y_axis_ref is None,
            m.x_axis_conv is None,
            m.y_axis_conv is None,
    {
        McSupportData {
            object_type,
            qualifier: McObjectQualifier::Unspecified,
            unit: McText::empty(),
            comment: McText::empty(),
            x_axis_ref: None,
            y_axis_ref: None,
            x_axis_conv: None,
            y_axis_conv: None,
        }
    }

    // Setters for builder syntax
    pub fn set_object_type(self, object_type: McObjectType) -> (m: Self)
        requires
            object_type != McObjectType::Unspecified,
        ensures
            m == (McSupportData { object_type, ..self }),
    {
        McSupportData { object_type, ..self }
    }

    pub fn set_qualifier(self, qualifier: McObjectQualifier) -> (m: Self)
        ensures
            m == (McSupportData { qualifier, ..self }),
    {
        McSupportData { qualifier, ..self }
    }

    pub fn set_unit(self, unit: McText) -> (m: Self)
        ensures
            m == (McSupportData { unit, ..self }),
    {
        McSupportData { unit, ..self }
    }

    pub fn set_comment(self, comment: McText) -> (m: Self)
        ensures
            m == (McSupportData { comment, ..self }),
    {
        McSupportData { comment, ..self }
    }

    pub fn set_x_axis_ref(self, x_axis_ref: Option<McIdentifier>) -> (m: Self)
        ensures
            m == (McSupportData { x_axis_ref, ..self }),
    {
        McSupportData { x_axis_ref, ..self }
    }

    pub fn set_y_axis_ref(self, y_axis_ref: Option<McIdentifier>) -> (m: Self)
        ensures
            m == (McSupportData { y_axis_ref, ..self }),
    {
        McSupportData { y_axis_ref, ..self }
    }

    pub fn set_x_axis_conv(self, x_axis_conv: Option<McIdentifier>) -> (m: Self)
        ensures
            m == (McSupportData { x_axis_conv, ..self }),
    {
        McSupportData { x_axis_conv, ..self }
    }

    pub fn set_y_axis_conv(self, y_axis_conv: Option<McIdentifier>) -> (m: Self)
        ensures
            m == (McSupportData { y_axis_conv, ..self }),
    {
        McSupportData { y_axis_conv, ..self }
    }

    /// Get the object type: Measurement, Characteristic, Axis, or Unspecified where the metadata
    /// describes none
    pub fn get_object_type(&self) -> (t: McObjectType)
        ensures
            t == self.object_type,
    {
        self.object_type
    }

    pub fn is_axis(&self) -> (b: bool)
        ensures
            b == (self.object_type == McObjectType::Axis),
    {
        self.object_type.is_axis()
    }

    pub fn is_characteristic(&self) -> (b: bool)
        ensures
            b == (self.object_type == McObjectType::Characteristic),
    {
        self.object_type.is_characteristic()
    }

    pub fn is_calibration_object(&self) -> (b: bool)
        ensures
            b == (self.object_type != McObjectType::Measurement),
    {
        self.object_type.is_calibration_object()
    }

    pub fn is_measurement_object(&self) -> (b: bool)
        ensures
            b == (self.object_type == McObjectType::Measurement),
    {
        self.object_type.is_measurement_object()
    }

    pub fn get_x_axis_ref(&self) -> (r: Option<McIdentifier>)
        ensures
            r == self.x_axis_ref,
    {
        self.x_axis_ref
    }

    pub fn get_y_axis_ref(&self) -> (r: Option<McIdentifier>)
        ensures
            r == self.y_axis_ref,
    {
        self.y_axis_ref
    }

    pub fn get_x_axis_conv(&self) -> (r: Option<McIdentifier>)
        ensures
            r == self.x_axis_conv,
    {
        self.x_axis_conv
    }

    pub fn get_y_axis_conv(&self) -> (r: Option<McIdentifier>)
        ensures
            r == self.y_axis_conv,
    {
        self.y_axis_conv
    }

    pub fn get_comment(&self) -> (s: &'static str)
        ensures
            s@ == self.comment@,
    {
        self.comment.as_str()
    }

    pub fn get_unit(&self) -> (s: &'static str)
        ensures
            s@ == self.unit@,
    {
        self.unit.as_str()
    }
}

} // verus!
