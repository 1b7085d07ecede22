//! Message boxes through the desktop's dialog program.
use vstd::prelude::*;

use crate::command::string_views;
use crate::text::{decimal, decimal_string, str_eq};

verus! {

/// The dialog programs that are supported.
pub open spec fn known_dialog(cmd: Seq<char>) -> bool {
    cmd == "kdialog"@ || cmd == "zenity"@ || cmd == "dialog"@
}

/// The arguments that show `message` in an OK box with the dialog program `cmd`:
/// `kdialog --msgbox <message>`, `zenity --info --text=<message>`, or
/// `dialog --msgbox <message> 10 60`.
pub fn prompt_ok(dialog_command: &str, message: &str) -> (args: Vec<String>)
    requires
        known_dialog(dialog_command@),
    ensures
        dialog_command@ == "kdialog"@ ==> string_views(args@) == seq!["--msgbox"@, message@],
        dialog_command@ == "zenity"@ ==> string_views(args@) == seq!["--text="@ + message@].insert(0, "--info"@),
        dialog_command@ == "dialog"@ ==> string_views(args@) == seq!["--msgbox"@, message@, decimal(10), decimal(60)],
{
    proof {
        reveal_strlit("kdialog");
        reveal_strlit("zenity");
        reveal_strlit("dialog");
        assert("kdialog"@.len() == 7);
        assert("zenity"@.len() == 6);
        assert("dialog"@.len() == 6);
        assert("zenity"@[0] != "dialog"@[0]);
    }
    let mut args: Vec<String> = Vec::new();
    if str_eq(dialog_command, "kdialog") {
        args.push("--msgbox".to_string());
        args.push(message.to_string());
        proof {
            assert(string_views(args@) =~= seq!["--msgbox"@, message@]);
        }
    } else if str_eq(dialog_command, "zenity") {
        args.push("--info".to_string());
        args.push(crate::text::concat("--text=", message));
        proof {
            assert(string_views(args@) =~= seq!["--text="@ + message@].insert(0, "--info"@));
        }
    } else {
        args.push("--msgbox".to_string());
        args.push(message.to_string());
        args.push(decimal_string(10));
        args.push(decimal_string(60));
        proof {
            assert(string_views(args@) =~= seq!["--msgbox"@, message@, decimal(10), decimal(60)]);
        }
    }
    args
}

/// The dialog program to use: `kdialog` when it is installed, else `zenity` when it is
/// installed, else `dialog`.
pub fn which_dialog(kdialog_found: bool, zenity_found: bool) -> (s: String)
    ensures
        s@ == (if kdialog_found { "kdialog"@ } else if zenity_found { "zenity"@ } else { "dialog"@ }),
{
    if kdialog_found {
        "kdialog".to_string()
    } else if zenity_found {
        "zenity".to_string()
    } else {
        "dialog".to_string()
    }
}

} // verus!
