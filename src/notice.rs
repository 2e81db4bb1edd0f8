//! What the desktop notification says after a backup.
use vstd::prelude::*;

verus! {

/// The content of one desktop notification.
pub struct Notice {
    pub app_name: String,
    pub summary: String,
    pub body: String,
    pub icon: String,
}

/// The notification for a finished backup: a fixed text on success, the
/// error message on failure, and none for a failure without a message.
pub fn notice_for(success: bool, error_message: Option<&str>) -> (r: Option<Notice>)
    ensures
        success ==> r.is_some() && r.unwrap().summary@ == "Backup Completed"@
            && r.unwrap().body@ == "Your Minecraft worlds have been successfully saved."@
            && r.unwrap().icon@ == "./assets/icon.ico"@ && r.unwrap().app_name@ == "RustCraft"@,
        !success && error_message.is_some() ==> r.is_some() && r.unwrap().summary@
            == "Backup Error"@ && r.unwrap().body@ == error_message.unwrap()@
            && r.unwrap().icon@ == "./assets/error.png"@ && r.unwrap().app_name@ == "RustCraft"@,
        !success && error_message.is_none() ==> r.is_none(),
{
    if success {
        Some(
            Notice {
                app_name: "RustCraft".to_owned(),
                summary: "Backup Completed".to_owned(),
                body: "Your Minecraft worlds have been successfully saved.".to_owned(),
                icon: "./assets/icon.ico".to_owned(),
            },
        )
    } else {
        match error_message {
            Some(msg) => Some(
                Notice {
                    app_name: "RustCraft".to_owned(),
                    summary: "Backup Error".to_owned(),
                    body: msg.to_owned(),
                    icon: "./assets/error.png".to_owned(),
                },
            ),
            None => None,
        }
    }
}

} // verus!
