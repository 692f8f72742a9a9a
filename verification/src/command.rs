//! The configuration program's command line and what it reports.

use vstd::prelude::*;

use crate::cli::{EXIT_CLSID_FAILED, EXIT_DLL_NOT_FOUND, EXIT_EXTENSION_FAILED, EXIT_OK};
use crate::text::{decimal_text, join, same_text};

verus! {

/// Exit code when the window cannot be opened.
pub const EXIT_GUI_FAILED: i32 = 5;

/// What the program is asked to do.
#[derive(Debug, Clone, Copy, PartialEq, Eq, Structural)]
pub enum Mode {
    Install,
    Uninstall,
    /// Open the settings window.
    Gui,
}

/// What the first argument asks for. Anything but the two commands opens
/// the window.
pub fn mode_for(argument: Option<&str>) -> (mode: Mode)
    ensures
        mode == (match argument {
            Some(argument) => if argument@ == "--install"@ {
                Mode::Install
            } else if argument@ == "--uninstall"@ {
                Mode::Uninstall
            } else {
                Mode::Gui
            },
            None => Mode::Gui,
        }),
{
    proof {
        reveal_strlit("--install");
        reveal_strlit("--uninstall");
        assert("--install"@.len() != "--uninstall"@.len());
    }
    match argument {
        Some(argument) => {
            if same_text(argument, "--install") {
                Mode::Install
            } else if same_text(argument, "--uninstall") {
                Mode::Uninstall
            } else {
                Mode::Gui
            }
        },
        None => Mode::Gui,
    }
}

/// A line for the console.
pub struct Report {
    pub text: String,
    /// The line goes to the error stream.
    pub is_error: bool,
}

/// A number in decimal, with a sign if it is negative.
pub open spec fn signed_digits(n: int) -> Seq<char> {
    if n < 0 {
        "-"@ + crate::text::decimal_digits((-n) as nat)
    } else {
        crate::text::decimal_digits(n as nat)
    }
}

fn signed_text(n: i32) -> (text: String)
    ensures
        text@ == signed_digits(n as int),
{
    let value: i64 = n as i64;
    if value < 0 {
        join("-", decimal_text((-value) as u64).as_str())
    } else {
        decimal_text(value as u64)
    }
}

/// The line that reports how an installation ended.
pub open spec fn install_line(code: i32) -> Seq<char> {
    if code == EXIT_OK {
        "ArcThumb installed successfully."@
    } else if code == EXIT_DLL_NOT_FOUND {
        "Error: arcthumb.dll not found."@
    } else if code == EXIT_CLSID_FAILED {
        "Error: CLSID registration failed."@
    } else if code == EXIT_EXTENSION_FAILED {
        "Error: extension binding failed."@
    } else {
        "Error: unknown failure (exit code "@ + signed_digits(code as int) + ")."@
    }
}

/// Reports how an installation ended.
pub fn install_report(code: i32) -> (report: Report)
    ensures
        report.text@ == install_line(code),
        report.is_error == (code != EXIT_OK),
{
    let text = if code == EXIT_OK {
        "ArcThumb installed successfully.".to_owned()
    } else if code == EXIT_DLL_NOT_FOUND {
        "Error: arcthumb.dll not found.".to_owned()
    } else if code == EXIT_CLSID_FAILED {
        "Error: CLSID registration failed.".to_owned()
    } else if code == EXIT_EXTENSION_FAILED {
        "Error: extension binding failed.".to_owned()
    } else {
        let mut text = "Error: unknown failure (exit code ".to_owned();
        text.append(signed_text(code).as_str());
        text.append(").");
        text
    };
    Report { text, is_error: code != EXIT_OK }
}

/// Reports that everything was removed, which cannot fail.
pub fn uninstall_report() -> (report: Report)
    ensures
        report.text@ == "ArcThumb uninstalled."@,
        !report.is_error,
{
    Report { text: "ArcThumb uninstalled.".to_owned(), is_error: false }
}

/// The text of the message box that says why the window cannot be
/// opened: an introduction, an empty line, and the reason.
pub fn gui_failure_text(introduction: &str, reason: &str) -> (text: String)
    ensures
        text@ == introduction@ + "\n\n"@ + reason@,
{
    let mut text = join(introduction, "\n\n");
    text.append(reason);
    text
}

/// Each exit code has a line of its own; one that no installation ends
/// with is named in the line.
pub proof fn install_lines(code: i32)
    ensures
        install_line(0) == "ArcThumb installed successfully."@,
        install_line(2) == "Error: arcthumb.dll not found."@,
        install_line(3) == "Error: CLSID registration failed."@,
        install_line(4) == "Error: extension binding failed."@,
        code > 4 || code == 1 ==> install_line(code) == "Error: unknown failure (exit code "@
            + crate::text::decimal_digits(code as nat) + ")."@,
        code < 0 ==> install_line(code) == "Error: unknown failure (exit code "@ + ("-"@
            + crate::text::decimal_digits((-code) as nat)) + ")."@,
{
}

} // verus!
