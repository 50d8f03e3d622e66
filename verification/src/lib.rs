//! Driver logic of the STM32 full-speed USB device peripheral and of the reset and clock
//! control that switches peripherals on and off.

pub mod address;
pub mod btable;
pub mod buffer;
pub mod bus;
pub mod control;
pub mod driver;
pub mod endpoint;
pub mod epr;
pub mod instance;
pub mod interrupt;
pub mod model;
pub mod rcc;
pub mod regs;
pub mod time;
pub mod types;
pub mod util;

pub use address::{Dir, EndpointAddress, EndpointInfo, In, Out};
pub use bus::Bus;
pub use control::{AcceptState, ControlPipe, DataInState, DataOutState, SetupState};
pub use driver::{Driver, EndpointData};
pub use endpoint::{Endpoint, ReadState, WriteState};
pub use instance::Instance;
pub use interrupt::InterruptHandler;
pub use regs::{EpType, Stat};
pub use types::{
    Chip, Direction, EndpointAllocError, EndpointError, EndpointType, Event, Family, Flag, Input, Next, Op,
    PacketBuffer, Unsupported, UsbRam, UsbVersion, Waker, EP_COUNT,
};
