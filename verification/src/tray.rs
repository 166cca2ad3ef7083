//! Text resources for the tray menu; the menu itself is desktop glue
//! outside this crate.

use vstd::prelude::*;

use crate::app_config::AppType;
use crate::strutil;

verus! {

/// The tray's fixed labels, by interface language.
pub struct TrayTexts {
    pub show_main: &'static str,
    pub no_provider_hint: &'static str,
    pub quit: &'static str,
}

impl TrayTexts {
    /// English labels for `en`, Chinese for everything else.
    pub fn from_language(language: &str) -> (r: TrayTexts)
        ensures
            language@ == "en"@ ==> r.show_main@ == "Open main window"@ && r.no_provider_hint@
                == "  (No providers yet, please add them from the main window)"@ && r.quit@
                == "Quit"@,
            language@ != "en"@ ==> r.show_main@ == "\u{6253}\u{5f00}\u{4e3b}\u{754c}\u{9762}"@
                && r.no_provider_hint@
                == "  (\u{65e0}\u{4f9b}\u{5e94}\u{5546}\u{ff0c}\u{8bf7}\u{5728}\u{4e3b}\u{754c}\u{9762}\u{6dfb}\u{52a0})"@
                && r.quit@ == "\u{9000}\u{51fa}"@,
    {
        if strutil::str_eq(language, "en") {
            TrayTexts {
                show_main: "Open main window",
                no_provider_hint: "  (No providers yet, please add them from the main window)",
                quit: "Quit",
            }
        } else {
            TrayTexts {
                show_main: "\u{6253}\u{5f00}\u{4e3b}\u{754c}\u{9762}",
                no_provider_hint: "  (\u{65e0}\u{4f9b}\u{5e94}\u{5546}\u{ff0c}\u{8bf7}\u{5728}\u{4e3b}\u{754c}\u{9762}\u{6dfb}\u{52a0})",
                quit: "\u{9000}\u{51fa}",
            }
        }
    }
}

/// One client's section of the tray menu.
pub struct TrayAppSection {
    pub app_type: AppType,
    pub prefix: &'static str,
    pub header_id: &'static str,
    pub empty_id: &'static str,
    pub header_label: &'static str,
    pub log_name: &'static str,
}

/// The three sections, in the fixed menu order.
pub fn tray_sections() -> (r: Vec<TrayAppSection>)
    ensures
        r@.len() == 3,
        r@[0].app_type == AppType::ClientA,
        r@[1].app_type == AppType::Codex,
        r@[2].app_type == AppType::Gemini,
{
    let mut v: Vec<TrayAppSection> = Vec::new();
    v.push(
        TrayAppSection {
            app_type: AppType::ClientA,
            prefix: "client_a_",
            header_id: "client_a_header",
            empty_id: "client_a_empty",
            header_label: "--- ClientA ---",
            log_name: "ClientA",
        },
    );
    v.push(
        TrayAppSection {
            app_type: AppType::Codex,
            prefix: "codex_",
            header_id: "codex_header",
            empty_id: "codex_empty",
            header_label: "--- Codex ---",
            log_name: "Codex",
        },
    );
    v.push(
        TrayAppSection {
            app_type: AppType::Gemini,
            prefix: "gemini_",
            header_id: "gemini_header",
            empty_id: "gemini_empty",
            header_label: "--- Gemini ---",
            log_name: "Gemini",
        },
    );
    v
}

} // verus!
