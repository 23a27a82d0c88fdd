//! The state of the tools page: which tool is shown, and whether the page
//! has finished its start-up delay; and the heading of each tool.
use vstd::prelude::*;

use crate::chars::chars_of;

verus! {

/// One of the tools of the page.
#[derive(Clone, Copy, Debug, PartialEq, Eq)]
pub enum Tab {
    Json,
    Text,
    Qr,
    Base64,
}

/// Whether two texts are equal.
pub fn same_text(a: &str, b: &str) -> (r: bool)
    ensures
        r == (a@ == b@),
{
    let x = chars_of(a);
    let y = chars_of(b);
    if x.len() != y.len() {
        return false;
    }
    let mut i: usize = 0;
    while i < x.len()
        invariant
            i <= x.len() == y.len(),
            x@ == a@,
            y@ == b@,
            forall|j: int| 0 <= j < i ==> x@[j] == y@[j],
        decreases x.len() - i,
    {
        if x[i] != y[i] {
            return false;
        }
        i += 1;
    }
    assert(x@ =~= y@);
    true
}

impl Tab {
    /// The identifier of the tab.
    pub open spec fn id_spec(self) -> Seq<char> {
        match self {
            Tab::Json => "json"@,
            Tab::Text => "text"@,
            Tab::Qr => "qr"@,
            Tab::Base64 => "base64"@,
        }
    }

    /// The identifier of the tab, as the page names it.
    pub fn id(&self) -> (r: &'static str)
        ensures
            r@ == self.id_spec(),
    {
        match self {
            Tab::Json => "json",
            Tab::Text => "text",
            Tab::Qr => "qr",
            Tab::Base64 => "base64",
        }
    }

    /// The tab that `id` names, if any.
    pub fn from_id(id: &str) -> (r: Option<Tab>)
        ensures
            r matches Some(t) ==> t.id_spec() == id@,
            r is None ==> forall|t: Tab| t.id_spec() != id@,
    {
        if same_text(id, "json") {
            Some(Tab::Json)
        } else if same_text(id, "text") {
            Some(Tab::Text)
        } else if same_text(id, "qr") {
            Some(Tab::Qr)
        } else if same_text(id, "base64") {
            Some(Tab::Base64)
        } else {
            None
        }
    }
}

/// The heading of the tool that `tab_id` names.
pub open spec fn tool_title(tab_id: Seq<char>) -> Seq<char> {
    if tab_id == "json"@ {
        "JSON Formatter & Validator"@
    } else if tab_id == "text"@ {
        "Text Utilities"@
    } else if tab_id == "qr"@ {
        "QR Code Generator"@
    } else if tab_id == "base64"@ {
        "Base64 Encoder/Decoder"@
    } else {
        "Unknown Tool"@
    }
}

/// The one-line description of the tool that `tab_id` names.
pub open spec fn tool_description(tab_id: Seq<char>) -> Seq<char> {
    if tab_id == "json"@ {
        "Format, validate, and prettify your JSON data with precision"@
    } else if tab_id == "text"@ {
        "Transform text case and analyze character & word counts"@
    } else if tab_id == "qr"@ {
        "Generate sleek QR codes for text, URLs, and any data"@
    } else if tab_id == "base64"@ {
        "Encode and decode Base64 strings with modern efficiency"@
    } else {
        "Tool description not available"@
    }
}

/// The heading of the tool that `tab_id` names; `Unknown Tool` for any other id.
pub fn get_tool_title(tab_id: &str) -> (r: &'static str)
    ensures
        r@ == tool_title(tab_id@),
{
    if same_text(tab_id, "json") {
        "JSON Formatter & Validator"
    } else if same_text(tab_id, "text") {
        "Text Utilities"
    } else if same_text(tab_id, "qr") {
        "QR Code Generator"
    } else if same_text(tab_id, "base64") {
        "Base64 Encoder/Decoder"
    } else {
        "Unknown Tool"
    }
}

/// The description of the tool that `tab_id` names; a notice for any other id.
pub fn get_tool_description(tab_id: &str) -> (r: &'static str)
    ensures
        r@ == tool_description(tab_id@),
{
    if same_text(tab_id, "json") {
        "Format, validate, and prettify your JSON data with precision"
    } else if same_text(tab_id, "text") {
        "Transform text case and analyze character & word counts"
    } else if same_text(tab_id, "qr") {
        "Generate sleek QR codes for text, URLs, and any data"
    } else if same_text(tab_id, "base64") {
        "Encode and decode Base64 strings with modern efficiency"
    } else {
        "Tool description not available"
    }
}

/// The page's state: the tool shown, and whether the start-up delay is over.
#[derive(Clone, Copy, Debug, PartialEq, Eq)]
pub struct ToolsState {
    pub active_tab: Tab,
    pub initialized: bool,
}

impl ToolsState {
    /// A fresh page: the JSON tool, start-up not yet over.
    pub fn new() -> (r: ToolsState)
        ensures
            r.active_tab == Tab::Json,
            !r.initialized,
    {
        ToolsState { active_tab: Tab::Json, initialized: false }
    }

    /// Marks the start-up delay as over; the tool shown stays.
    pub fn initialize(&mut self)
        ensures
            final(self).initialized,
            final(self).active_tab == old(self).active_tab,
    {
        self.initialized = true;
    }

    /// Shows `tab`; the start-up state stays.
    pub fn select(&mut self, tab: Tab)
        ensures
            final(self).active_tab == tab,
            final(self).initialized == old(self).initialized,
    {
        self.active_tab = tab;
    }

    /// The tool shown.
    pub fn get_active_tab(&self) -> (r: Tab)
        ensures
            r == self.active_tab,
    {
        self.active_tab
    }

    /// Whether the start-up delay is over.
    pub fn is_initialized(&self) -> (r: bool)
        ensures
            r == self.initialized,
    {
        self.initialized
    }
}

} // verus!
