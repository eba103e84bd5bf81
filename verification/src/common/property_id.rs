use vstd::prelude::*;

verus! {

/// The name of a property of an object.
#[derive(Debug, Clone, Copy, PartialEq, Eq, Structural)]
pub enum PropertyId {
    PropAll,
    PropDescription,
    PropEventState,
    PropFirmwareRevision,
    PropLocalDate,
    PropLocalTime,
    PropLocation,
    PropModelName,
    PropNotifyType,
    PropObjectIdentifier,
    PropObjectList,
    PropObjectName,
    PropObjectType,
    PropOutOfService,
    PropPresentValue,
    PropPriorityArray,
    PropReliability,
    PropStatusFlags,
    PropSystemStatus,
    PropUnits,
    PropVendorName,
    PropWeeklySchedule,
    PropLogBuffer,
    PropRecordCount,
    PropLoggingType,
    /// A code without a name here, carried as it is.
    Other(u32),
}

impl PropertyId {
    /// The value with a name that a code stands for, if there is one.
    pub open spec fn named(code: u32) -> Option<PropertyId> {
        if code == 8 {
            Some(PropertyId::PropAll)
        } else if code == 28 {
            Some(PropertyId::PropDescription)
        } else if code == 36 {
            Some(PropertyId::PropEventState)
        } else if code == 44 {
            Some(PropertyId::PropFirmwareRevision)
        } else if code == 56 {
            Some(PropertyId::PropLocalDate)
        } else if code == 57 {
            Some(PropertyId::PropLocalTime)
        } else if code == 58 {
            Some(PropertyId::PropLocation)
        } else if code == 70 {
            Some(PropertyId::PropModelName)
        } else if code == 72 {
            Some(PropertyId::PropNotifyType)
        } else if code == 75 {
            Some(PropertyId::PropObjectIdentifier)
        } else if code == 76 {
            Some(PropertyId::PropObjectList)
        } else if code == 77 {
            Some(PropertyId::PropObjectName)
        } else if code == 79 {
            Some(PropertyId::PropObjectType)
        } else if code == 81 {
            Some(PropertyId::PropOutOfService)
        } else if code == 85 {
            Some(PropertyId::PropPresentValue)
        } else if code == 87 {
            Some(PropertyId::PropPriorityArray)
        } else if code == 103 {
            Some(PropertyId::PropReliability)
        } else if code == 111 {
            Some(PropertyId::PropStatusFlags)
        } else if code == 112 {
            Some(PropertyId::PropSystemStatus)
        } else if code == 117 {
            Some(PropertyId::PropUnits)
        } else if code == 121 {
            Some(PropertyId::PropVendorName)
        } else if code == 123 {
            Some(PropertyId::PropWeeklySchedule)
        } else if code == 131 {
            Some(PropertyId::PropLogBuffer)
        } else if code == 141 {
            Some(PropertyId::PropRecordCount)
        } else if code == 197 {
            Some(PropertyId::PropLoggingType)
        } else {
            None
        }
    }

    /// The code on the wire.
    pub open spec fn code(self) -> u32 {
        match self {
            PropertyId::PropAll => 8,
            PropertyId::PropDescription => 28,
            PropertyId::PropEventState => 36,
            PropertyId::PropFirmwareRevision => 44,
            PropertyId::PropLocalDate => 56,
            PropertyId::PropLocalTime => 57,
            PropertyId::PropLocation => 58,
            PropertyId::PropModelName => 70,
            PropertyId::PropNotifyType => 72,
            PropertyId::PropObjectIdentifier => 75,
            PropertyId::PropObjectList => 76,
            PropertyId::PropObjectName => 77,
            PropertyId::PropObjectType => 79,
            PropertyId::PropOutOfService => 81,
            PropertyId::PropPresentValue => 85,
            PropertyId::PropPriorityArray => 87,
            PropertyId::PropReliability => 103,
            PropertyId::PropStatusFlags => 111,
            PropertyId::PropSystemStatus => 112,
            PropertyId::PropUnits => 117,
            PropertyId::PropVendorName => 121,
            PropertyId::PropWeeklySchedule => 123,
            PropertyId::PropLogBuffer => 131,
            PropertyId::PropRecordCount => 141,
            PropertyId::PropLoggingType => 197,
            PropertyId::Other(code) => code as u32,
        }
    }

    /// A code without a name is carried as such, and only there.
    pub open spec fn wf(self) -> bool {
        match self {
            PropertyId::Other(code) => PropertyId::named(code).is_none(),
            _ => true,
        }
    }

    /// The property that a code stands for.
    pub open spec fn of_code(code: u32) -> PropertyId {
        match PropertyId::named(code) {
            Some(id) => id,
            None => PropertyId::Other(code),
        }
    }

    /// The code on the wire.
    pub fn to_u32(self) -> (code: u32)
        ensures
            code == self.code(),
            self.wf() ==> PropertyId::of_code(code) == self,
    {
        match self {
            PropertyId::PropAll => 8,
            PropertyId::PropDescription => 28,
            PropertyId::PropEventState => 36,
            PropertyId::PropFirmwareRevision => 44,
            PropertyId::PropLocalDate => 56,
            PropertyId::PropLocalTime => 57,
            PropertyId::PropLocation => 58,
            PropertyId::PropModelName => 70,
            PropertyId::PropNotifyType => 72,
            PropertyId::PropObjectIdentifier => 75,
            PropertyId::PropObjectList => 76,
            PropertyId::PropObjectName => 77,
            PropertyId::PropObjectType => 79,
            PropertyId::PropOutOfService => 81,
            PropertyId::PropPresentValue => 85,
            PropertyId::PropPriorityArray => 87,
            PropertyId::PropReliability => 103,
            PropertyId::PropStatusFlags => 111,
            PropertyId::PropSystemStatus => 112,
            PropertyId::PropUnits => 117,
            PropertyId::PropVendorName => 121,
            PropertyId::PropWeeklySchedule => 123,
            PropertyId::PropLogBuffer => 131,
            PropertyId::PropRecordCount => 141,
            PropertyId::PropLoggingType => 197,
            PropertyId::Other(code) => code,
        }
    }

    /// The property that a code stands for.
    pub fn from_u32(code: u32) -> (id: PropertyId)
        ensures
            id == PropertyId::of_code(code),
            id.wf(),
            id.code() == code,
    {
        match code {
            8 => PropertyId::PropAll,
            28 => PropertyId::PropDescription,
            36 => PropertyId::PropEventState,
            44 => PropertyId::PropFirmwareRevision,
            56 => PropertyId::PropLocalDate,
            57 => PropertyId::PropLocalTime,
            58 => PropertyId::PropLocation,
            70 => PropertyId::PropModelName,
            72 => PropertyId::PropNotifyType,
            75 => PropertyId::PropObjectIdentifier,
            76 => PropertyId::PropObjectList,
            77 => PropertyId::PropObjectName,
            79 => PropertyId::PropObjectType,
            81 => PropertyId::PropOutOfService,
            85 => PropertyId::PropPresentValue,
            87 => PropertyId::PropPriorityArray,
            103 => PropertyId::PropReliability,
            111 => PropertyId::PropStatusFlags,
            112 => PropertyId::PropSystemStatus,
            117 => PropertyId::PropUnits,
            121 => PropertyId::PropVendorName,
            123 => PropertyId::PropWeeklySchedule,
            131 => PropertyId::PropLogBuffer,
            141 => PropertyId::PropRecordCount,
            197 => PropertyId::PropLoggingType,
            _ => PropertyId::Other(code),
        }
    }

    /// Whether the value can go on the wire.
    pub fn is_valid(self) -> (b: bool)
        ensures
            b == self.wf(),
    {
        match self {
            PropertyId::Other(code) => match code {
                8 | 28 | 36 | 44 | 56 | 57 | 58 | 70 | 72 | 75 | 76 | 77 | 79 | 81 | 85 | 87 | 103 | 111 | 112 | 117 | 121 | 123 | 131 | 141 | 197 => false,
                _ => true,
            },
            _ => true,
        }
    }
}

} // verus!
