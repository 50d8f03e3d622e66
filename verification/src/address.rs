//! Endpoint addresses and the markers of the two directions.

use vstd::prelude::*;
use crate::types::{Direction, EndpointType};

verus! {

/// `EndpointAddress::index` of the address with this byte: the byte without bit 7.
#[verifier::external_body]
fn address_index(raw: u8) -> (r: usize)
    ensures
        r == raw & !0x80u8,
{
    embassy_usb_driver::EndpointAddress::from(raw).index()
}

/// `EndpointAddress::direction` of the address with this byte: IN exactly if bit 7 is set.
#[verifier::external_body]
fn address_direction(raw: u8) -> (r: Direction)
    ensures
        r == (if raw & 0x80u8 != 0 {
            Direction::In
        } else {
            Direction::Out
        }),
{
    match embassy_usb_driver::EndpointAddress::from(raw).direction() {
        embassy_usb_driver::Direction::Out => Direction::Out,
        embassy_usb_driver::Direction::In => Direction::In,
    }
}

/// `EndpointAddress::from_parts`: the byte of the address is the index's low byte, with bit 7
/// set as well for IN.
#[verifier::external_body]
fn address_from_parts(index: usize, dir: Direction) -> (raw: u8)
    ensures
        raw == (index as u8) | (if dir == Direction::In {
            0x80u8
        } else {
            0u8
        }),
{
    let dir = match dir {
        Direction::Out => embassy_usb_driver::Direction::Out,
        Direction::In => embassy_usb_driver::Direction::In,
    };
    u8::from(embassy_usb_driver::EndpointAddress::from_parts(index, dir))
}

/// Address of an endpoint: its index and its direction in one byte.
#[derive(Clone, Copy, PartialEq, Eq, Structural, Debug)]
pub struct EndpointAddress {
    /// The index in bits 0 to 6; bit 7 is set for IN.
    pub raw: u8,
}

impl EndpointAddress {
    /// The index.
    pub open spec fn spec_index(self) -> int {
        self.raw as int % 128
    }

    /// The direction.
    pub open spec fn spec_direction(self) -> Direction {
        if self.raw >= 128 {
            Direction::In
        } else {
            Direction::Out
        }
    }

    /// The address with this index and direction.
    pub open spec fn spec_from_parts(index: int, dir: Direction) -> EndpointAddress {
        EndpointAddress {
            raw: (index + (if dir == Direction::In {
                128int
            } else {
                0
            })) as u8,
        }
    }

    /// The index.
    pub fn index(&self) -> (r: usize)
        ensures
            r == self.spec_index(),
    {
        proof {
            let raw = self.raw;
            assert(raw & !0x80u8 == raw % 128) by (bit_vector);
        }
        address_index(self.raw)
    }

    /// The direction.
    pub fn direction(&self) -> (r: Direction)
        ensures
            r == self.spec_direction(),
    {
        proof {
            let raw = self.raw;
            assert((raw & 0x80u8 != 0) == (raw >= 128)) by (bit_vector);
        }
        address_direction(self.raw)
    }

    /// The address with this index and direction. Of an index that does not fit into seven bits
    /// the low byte is taken, whose top bit then stands for IN whatever the direction is.
    pub fn from_parts(index: usize, dir: Direction) -> (r: Self)
        ensures
            r.raw == (index as u8) | (if dir == Direction::In {
                0x80u8
            } else {
                0u8
            }),
            index < 128 ==> {
                &&& r == Self::spec_from_parts(index as int, dir)
                &&& r.spec_index() == index
                &&& r.spec_direction() == dir
            },
    {
        proof {
            let b = index as u8;
            assert((b < 128 ==> b | 0x80u8 == b + 128) && b | 0u8 == b) by (bit_vector);
        }
        EndpointAddress { raw: address_from_parts(index, dir) }
    }
}

/// Information on an endpoint.
#[derive(Clone, Copy, PartialEq, Eq, Structural, Debug)]
pub struct EndpointInfo {
    /// The endpoint's address.
    pub addr: EndpointAddress,
    /// The endpoint's type.
    pub ep_type: EndpointType,
    /// Size of the largest packet, in bytes.
    pub max_packet_size: u16,
    /// Polling interval, in milliseconds.
    pub interval_ms: u8,
}

/// Direction as a type.
pub trait Dir {
    /// The direction.
    spec fn spec_dir() -> Direction;

    /// The direction.
    fn dir() -> (r: Direction)
        ensures
            r == Self::spec_dir(),
    ;
}

/// Marker type for the IN direction.
pub enum In {
    Marker,
}

impl Dir for In {
    open spec fn spec_dir() -> Direction {
        Direction::In
    }

    fn dir() -> (r: Direction) {
        Direction::In
    }
}

/// Marker type for the OUT direction.
pub enum Out {
    Marker,
}

impl Dir for Out {
    open spec fn spec_dir() -> Direction {
        Direction::Out
    }

    fn dir() -> (r: Direction) {
        Direction::Out
    }
}

impl EndpointAddress {
    /// An address is its index, of seven bits, with 128 added for IN.
    pub proof fn law_parts(self, index: int, dir: Direction)
        requires
            0 <= index < 128,
        ensures
            0 <= self.spec_index() < 128,
            self.raw == self.spec_index() + (if self.spec_direction() == Direction::In {
                128int
            } else {
                0
            }),
            Self::spec_from_parts(index, dir).raw == index + (if dir == Direction::In {
                128int
            } else {
                0
            }),
    {
    }
}

} // verus!
