//! The sixteen bytes of a UUID as a record of named fields, and its
//! conversions from and to a plain byte array.

use vstd::prelude::*;

verus! {

/// The bytes of a UUID, first byte first.
#[derive(Clone, Copy, Debug, PartialEq, Eq)]
pub struct CFUUIDBytes {
    pub byte0: u8,
    pub byte1: u8,
    pub byte2: u8,
    pub byte3: u8,
    pub byte4: u8,
    pub byte5: u8,
    pub byte6: u8,
    pub byte7: u8,
    pub byte8: u8,
    pub byte9: u8,
    pub byte10: u8,
    pub byte11: u8,
    pub byte12: u8,
    pub byte13: u8,
    pub byte14: u8,
    pub byte15: u8,
}

impl View for CFUUIDBytes {
    type V = Seq<u8>;

    /// The sixteen bytes in order.
    open spec fn view(&self) -> Seq<u8> {
        seq![
            self.byte0,
            self.byte1,
            self.byte2,
            self.byte3,
            self.byte4,
            self.byte5,
            self.byte6,
            self.byte7,
            self.byte8,
            self.byte9,
            self.byte10,
            self.byte11,
            self.byte12,
            self.byte13,
            self.byte14,
            self.byte15,
        ]
    }
}

impl CFUUIDBytes {
    /// The record whose fields are the given bytes in order.
    pub open spec fn of_bytes(value: Seq<u8>) -> CFUUIDBytes
        recommends
            value.len() == 16,
    {
        CFUUIDBytes {
            byte0: value[0],
            byte1: value[1],
            byte2: value[2],
            byte3: value[3],
            byte4: value[4],
            byte5: value[5],
            byte6: value[6],
            byte7: value[7],
            byte8: value[8],
            byte9: value[9],
            byte10: value[10],
            byte11: value[11],
            byte12: value[12],
            byte13: value[13],
            byte14: value[14],
            byte15: value[15],
        }
    }

    /// Builds the record from an array, byte `i` of the array becoming field
    /// `byte{i}`.
    pub fn from_array(value: [u8; 16]) -> (ret: CFUUIDBytes)
        ensures
            ret == CFUUIDBytes::of_bytes(value@),
            ret@ == value@,
    {
        let ret = CFUUIDBytes {
            byte0: value[0],
            byte1: value[1],
            byte2: value[2],
            byte3: value[3],
            byte4: value[4],
            byte5: value[5],
            byte6: value[6],
            byte7: value[7],
            byte8: value[8],
            byte9: value[9],
            byte10: value[10],
            byte11: value[11],
            byte12: value[12],
            byte13: value[13],
            byte14: value[14],
            byte15: value[15],
        };
        assert(ret@ =~= value@);
        ret
    }

    /// The array that holds the fields in order.
    pub open spec fn array(self) -> [u8; 16] {
        [
            self.byte0,
            self.byte1,
            self.byte2,
            self.byte3,
            self.byte4,
            self.byte5,
            self.byte6,
            self.byte7,
            self.byte8,
            self.byte9,
            self.byte10,
            self.byte11,
            self.byte12,
            self.byte13,
            self.byte14,
            self.byte15,
        ]
    }

    /// The fields as an array, field `byte{i}` becoming byte `i`.
    pub fn to_array(self) -> (ret: [u8; 16])
        ensures
            ret == self.array(),
            ret@ == self@,
    {
        let ret = [
            self.byte0,
            self.byte1,
            self.byte2,
            self.byte3,
            self.byte4,
            self.byte5,
            self.byte6,
            self.byte7,
            self.byte8,
            self.byte9,
            self.byte10,
            self.byte11,
            self.byte12,
            self.byte13,
            self.byte14,
            self.byte15,
        ];
        assert(ret@ =~= self@);
        ret
    }
}

impl From<[u8; 16]> for CFUUIDBytes {
    fn from(value: [u8; 16]) -> (ret: CFUUIDBytes) {
        CFUUIDBytes::from_array(value)
    }
}

impl vstd::std_specs::convert::FromSpecImpl<[u8; 16]> for CFUUIDBytes {
    open spec fn obeys_from_spec() -> bool {
        true
    }

    open spec fn from_spec(value: [u8; 16]) -> CFUUIDBytes {
        CFUUIDBytes::of_bytes(value@)
    }
}

impl From<CFUUIDBytes> for [u8; 16] {
    fn from(value: CFUUIDBytes) -> (ret: [u8; 16]) {
        value.to_array()
    }
}

impl vstd::std_specs::convert::FromSpecImpl<CFUUIDBytes> for [u8; 16] {
    open spec fn obeys_from_spec() -> bool {
        true
    }

    open spec fn from_spec(value: CFUUIDBytes) -> [u8; 16] {
        value.array()
    }
}

/// Turning an array into the record and back gives the array again, and the
/// other way round gives the record again.
pub proof fn lemma_uuid_bytes_roundtrip(value: Seq<u8>, bytes: CFUUIDBytes)
    requires
        value.len() == 16,
    ensures
        CFUUIDBytes::of_bytes(value)@ == value,
        CFUUIDBytes::of_bytes(bytes@) == bytes,
{
    assert(CFUUIDBytes::of_bytes(value)@ =~= value);
}

} // verus!
