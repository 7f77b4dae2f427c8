//! The settings each command runs with.
use vstd::prelude::*;
use crate::format::Format;

verus! {

/// Relies on `std::path::PathBuf` only as an opaque value: a file system
/// path that the library carries, unread, to the code that opens the file.
#[verifier::external_type_specification]
#[verifier::external_body]
pub struct ExPathBuf(std::path::PathBuf);

/// Settings of the table view and of the interactive browser.
pub struct View {
    /// Path to the file to read; standard input when absent.
    pub filepath: Option<std::path::PathBuf>,
    /// Byte offset at which to start reading; negative counts from the end.
    pub offset: i64,
    /// The number of bytes to read, when limited.
    pub limit: Option<usize>,
    /// The number of bytes in each row.
    pub size: usize,
    /// How each byte is written.
    pub format: Format,
    /// The number of bytes in each visual group.
    pub group_size: usize,
    /// Disable ANSI colors.
    pub no_color: bool,
    /// Plain output, without borders.
    pub simple: bool,
}

/// Settings of the plain value stream.
pub struct Output {
    /// Path to the file to read; standard input when absent.
    pub filepath: Option<std::path::PathBuf>,
    /// Byte offset at which to start reading; negative counts from the end.
    pub offset: i64,
    /// The number of bytes to read, when limited.
    pub limit: Option<usize>,
    /// How each byte is written.
    pub format: Format,
    /// Text written after each value.
    pub separator: String,
}

/// The three presentation modes.
pub enum Command {
    /// The table view.
    View(View),
    /// The plain value stream.
    Output(Output),
    /// The interactive browser.
    Inspect(View),
}

/// The command line: one optional subcommand.
pub struct Args {
    pub cmd: Option<Command>,
}

impl View {
    /// The number of bytes to take from `available`: all of them, or the
    /// limit when it is smaller.
    pub open spec fn bytes_to_take(&self, available: int) -> int {
        match self.limit {
            Some(l) => if (l as int) < available { l as int } else { available },
            None => available,
        }
    }
}

} // verus!
