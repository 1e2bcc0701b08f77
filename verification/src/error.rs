//! The errors of the library.
use vstd::prelude::*;

use crate::text::{concat3, texts};

verus! {

/// What can go wrong.
#[derive(Debug)]
pub enum Error {
    /// Accessing USB failed.
    Usb(String),
    /// No One ROM was found.
    NoDevices,
    /// More than one One ROM was found.
    MultipleDevices(Vec<String>),
    /// The One ROM that was asked for was not found.
    DeviceNotFound(String),
    /// Reading or writing a file failed.
    Io(String),
    /// Anything else, in words.
    Other(String),
    /// A board type that is not known, and those that are.
    InvalidBoard(String, String),
    /// Both a device and a board were given.
    DeviceAndBoard,
    /// A device was given where none applies.
    Device,
    /// No device was given.
    NoDevice,
    /// A command that does nothing yet.
    Unimplemented(String),
    /// An unsupported memory region: its address and length.
    InvalidMemoryRange(u32, u32),
    /// Memory that only a running One ROM gives access to.
    MemoryDeviceNotRunning,
    /// Memory that cannot be written.
    MemoryNotWriteable,
    /// An operation that needs a running One ROM.
    NotRunning,
    /// The ROM type is not known.
    UnknownRomType,
    /// An access past the end of a live image: the ROM type and its size.
    LiveOutOfBounds(String, usize),
    /// Neither a board nor a device was given.
    NoBoardOrDevice,
    /// A release that does not exist, and those that do.
    VersionNotFound(String, String),
    /// The manifest names no latest release.
    NoLatestRelease,
    /// The license was not accepted.
    LicenseNotAccepted,
    /// A base firmware image that is too large: its size and the largest.
    BaseFirmwareTooLarge(usize, usize),
    /// The assembled firmware does not parse.
    FirmwareValidation(String),
    /// The device could not be stopped.
    DeviceStillRunning,
    /// Flash differs: the offset, the byte expected and the byte found.
    VerifyFailed(usize, u8, u8),
    /// A command line argument that is not valid: its name and what is wrong.
    InvalidArgument(String, String),
    /// Nothing to program was given.
    NoFirmwareSource,
    /// An unexpected reboot state.
    NoReboot,
    /// A chip type that is not known, and those that the board supports.
    UnsupportedChipType(String, String),
    /// A chip type that the board does not support: its name, all its names, and those that the
    /// board supports.
    UnsupportedBoardChipType(String, String, String),
    /// The device does not say which board it is.
    NoBoardFromDevice(String),
    /// More than one plugin of one type.
    DuplicatePlugin(String),
    /// A user plugin without a system plugin.
    UserPluginWithoutSystem,
    /// A plugin that is too large: its size and the largest.
    PluginTooLarge(usize, usize),
    /// A URL could not be reached: the URL and why.
    Network(String, String),
    /// A URL was answered with an error: the URL and the status code.
    Http(String, u16),
    /// A URL was answered with something else than the JSON expected: the URL and why.
    Json(String, String),
}

/// An error as a mathematical value.
#[verifier::ext_equal]
pub enum ErrorView {
    Usb(Seq<char>),
    NoDevices,
    MultipleDevices(Seq<Seq<char>>),
    DeviceNotFound(Seq<char>),
    Io(Seq<char>),
    Other(Seq<char>),
    InvalidBoard(Seq<char>, Seq<char>),
    DeviceAndBoard,
    Device,
    NoDevice,
    Unimplemented(Seq<char>),
    InvalidMemoryRange(u32, u32),
    MemoryDeviceNotRunning,
    MemoryNotWriteable,
    NotRunning,
    UnknownRomType,
    LiveOutOfBounds(Seq<char>, usize),
    NoBoardOrDevice,
    VersionNotFound(Seq<char>, Seq<char>),
    NoLatestRelease,
    LicenseNotAccepted,
    BaseFirmwareTooLarge(usize, usize),
    FirmwareValidation(Seq<char>),
    DeviceStillRunning,
    VerifyFailed(usize, u8, u8),
    InvalidArgument(Seq<char>, Seq<char>),
    NoFirmwareSource,
    NoReboot,
    UnsupportedChipType(Seq<char>, Seq<char>),
    UnsupportedBoardChipType(Seq<char>, Seq<char>, Seq<char>),
    NoBoardFromDevice(Seq<char>),
    DuplicatePlugin(Seq<char>),
    UserPluginWithoutSystem,
    PluginTooLarge(usize, usize),
    Network(Seq<char>, Seq<char>),
    Http(Seq<char>, u16),
    Json(Seq<char>, Seq<char>),
}

impl View for Error {
    type V = ErrorView;

    open spec fn view(&self) -> ErrorView {
        match self {
            Error::Usb(a) => ErrorView::Usb(a@),
            Error::NoDevices => ErrorView::NoDevices,
            Error::MultipleDevices(a) => ErrorView::MultipleDevices(texts(a@)),
            Error::DeviceNotFound(a) => ErrorView::DeviceNotFound(a@),
            Error::Io(a) => ErrorView::Io(a@),
            Error::Other(a) => ErrorView::Other(a@),
            Error::InvalidBoard(a, b) => ErrorView::InvalidBoard(a@, b@),
            Error::DeviceAndBoard => ErrorView::DeviceAndBoard,
            Error::Device => ErrorView::Device,
            Error::NoDevice => ErrorView::NoDevice,
            Error::Unimplemented(a) => ErrorView::Unimplemented(a@),
            Error::InvalidMemoryRange(a, b) => ErrorView::InvalidMemoryRange(*a, *b),
            Error::MemoryDeviceNotRunning => ErrorView::MemoryDeviceNotRunning,
            Error::MemoryNotWriteable => ErrorView::MemoryNotWriteable,
            Error::NotRunning => ErrorView::NotRunning,
            Error::UnknownRomType => ErrorView::UnknownRomType,
            Error::LiveOutOfBounds(a, b) => ErrorView::LiveOutOfBounds(a@, *b),
            Error::NoBoardOrDevice => ErrorView::NoBoardOrDevice,
            Error::VersionNotFound(a, b) => ErrorView::VersionNotFound(a@, b@),
            Error::NoLatestRelease => ErrorView::NoLatestRelease,
            Error::LicenseNotAccepted => ErrorView::LicenseNotAccepted,
            Error::BaseFirmwareTooLarge(a, b) => ErrorView::BaseFirmwareTooLarge(*a, *b),
            Error::FirmwareValidation(a) => ErrorView::FirmwareValidation(a@),
            Error::DeviceStillRunning => ErrorView::DeviceStillRunning,
            Error::VerifyFailed(a, b, c) => ErrorView::VerifyFailed(*a, *b, *c),
            Error::InvalidArgument(a, b) => ErrorView::InvalidArgument(a@, b@),
            Error::NoFirmwareSource => ErrorView::NoFirmwareSource,
            Error::NoReboot => ErrorView::NoReboot,
            Error::UnsupportedChipType(a, b) => ErrorView::UnsupportedChipType(a@, b@),
            Error::UnsupportedBoardChipType(a, b, c) => ErrorView::UnsupportedBoardChipType(
                a@,
                b@,
                c@,
            ),
            Error::NoBoardFromDevice(a) => ErrorView::NoBoardFromDevice(a@),
            Error::DuplicatePlugin(a) => ErrorView::DuplicatePlugin(a@),
            Error::UserPluginWithoutSystem => ErrorView::UserPluginWithoutSystem,
            Error::PluginTooLarge(a, b) => ErrorView::PluginTooLarge(*a, *b),
            Error::Network(a, b) => ErrorView::Network(a@, b@),
            Error::Http(a, b) => ErrorView::Http(a@, *b),
            Error::Json(a, b) => ErrorView::Json(a@, b@),
        }
    }
}

impl Error {
    /// The error for a file that could not be read or written, from the file's path and what the
    /// system said.
    pub fn io(path: &str, e: &str) -> (r: Error)
        ensures
            r@ == ErrorView::Io(path@ + ": "@ + e@),
    {
        Error::Io(concat3(path, ": ", e))
    }

    /// The error for a command line argument that is not valid, from its name and what is wrong.
    pub fn invalid(argument: &str, message: String) -> (r: Error)
        ensures
            r@ == ErrorView::InvalidArgument(argument@, message@),
    {
        Error::InvalidArgument(argument.to_owned(), message)
    }
}

/// The mathematical value of an error is the same error, of the same texts and numbers.
pub proof fn law_error_values(
    a: String,
    b: String,
    c: String,
    list: Vec<String>,
    m: usize,
    n: usize,
    x: u32,
    y: u32,
    p: u8,
    q: u8,
    status: u16,
)
    ensures
        Error::Usb(a)@ == ErrorView::Usb(a@),
        Error::NoDevices@ == ErrorView::NoDevices,
        Error::MultipleDevices(list)@ == ErrorView::MultipleDevices(texts(list@)),
        Error::DeviceNotFound(a)@ == ErrorView::DeviceNotFound(a@),
        Error::Io(a)@ == ErrorView::Io(a@),
        Error::Other(a)@ == ErrorView::Other(a@),
        Error::InvalidBoard(a, b)@ == ErrorView::InvalidBoard(a@, b@),
        Error::DeviceAndBoard@ == ErrorView::DeviceAndBoard,
        Error::Device@ == ErrorView::Device,
        Error::NoDevice@ == ErrorView::NoDevice,
        Error::Unimplemented(a)@ == ErrorView::Unimplemented(a@),
        Error::InvalidMemoryRange(x, y)@ == ErrorView::InvalidMemoryRange(x, y),
        Error::MemoryDeviceNotRunning@ == ErrorView::MemoryDeviceNotRunning,
        Error::MemoryNotWriteable@ == ErrorView::MemoryNotWriteable,
        Error::NotRunning@ == ErrorView::NotRunning,
        Error::UnknownRomType@ == ErrorView::UnknownRomType,
        Error::LiveOutOfBounds(a, m)@ == ErrorView::LiveOutOfBounds(a@, m),
        Error::NoBoardOrDevice@ == ErrorView::NoBoardOrDevice,
        Error::VersionNotFound(a, b)@ == ErrorView::VersionNotFound(a@, b@),
        Error::NoLatestRelease@ == ErrorView::NoLatestRelease,
        Error::LicenseNotAccepted@ == ErrorView::LicenseNotAccepted,
        Error::BaseFirmwareTooLarge(m, n)@ == ErrorView::BaseFirmwareTooLarge(m, n),
        Error::FirmwareValidation(a)@ == ErrorView::FirmwareValidation(a@),
        Error::DeviceStillRunning@ == ErrorView::DeviceStillRunning,
        Error::VerifyFailed(m, p, q)@ == ErrorView::VerifyFailed(m, p, q),
        Error::InvalidArgument(a, b)@ == ErrorView::InvalidArgument(a@, b@),
        Error::NoFirmwareSource@ == ErrorView::NoFirmwareSource,
        Error::NoReboot@ == ErrorView::NoReboot,
        Error::UnsupportedChipType(a, b)@ == ErrorView::UnsupportedChipType(a@, b@),
        Error::UnsupportedBoardChipType(a, b, c)@ == ErrorView::UnsupportedBoardChipType(
            a@,
            b@,
            c@,
        ),
        Error::NoBoardFromDevice(a)@ == ErrorView::NoBoardFromDevice(a@),
        Error::DuplicatePlugin(a)@ == ErrorView::DuplicatePlugin(a@),
        Error::UserPluginWithoutSystem@ == ErrorView::UserPluginWithoutSystem,
        Error::PluginTooLarge(m, n)@ == ErrorView::PluginTooLarge(m, n),
        Error::Network(a, b)@ == ErrorView::Network(a@, b@),
        Error::Http(a, status)@ == ErrorView::Http(a@, status),
        Error::Json(a, b)@ == ErrorView::Json(a@, b@),
{
}

} // verus!
