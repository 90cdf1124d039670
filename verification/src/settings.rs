//! The AI settings panel: four text fields, focus cycling, and the masked
//! display of the API key.
use vstd::prelude::*;
use crate::text::{chars_of, to_string};

verus! {

/// A text field of the settings panel.
#[derive(Clone, Copy, Debug, PartialEq, Eq, Structural)]
pub enum SettingsField {
    Provider,
    ApiKey,
    BaseUrl,
    Model,
}

/// A button of the settings panel.
#[derive(Clone, Copy, Debug, PartialEq, Eq, Structural)]
pub enum SettingsButton {
    Save,
    TestConnection,
}

/// The AI service settings: provider, key, optional endpoint and model.
#[derive(Debug)]
pub struct AiSettings {
    pub provider: String,
    pub api_key: String,
    pub base_url: Option<String>,
    pub model: String,
}

/// State of the AI settings panel.
#[derive(Debug)]
pub struct SettingsPanel {
    pub provider: String,
    pub api_key: String,
    pub base_url: String,
    pub model: String,
    pub active_field: Option<SettingsField>,
    pub hover_button: Option<SettingsButton>,
    pub test_status: String,
    pub is_testing: bool,
}

/// The field after `f` in tab order; `None` stands for no field.
pub open spec fn field_after(f: Option<SettingsField>) -> Option<SettingsField> {
    match f {
        None => Some(SettingsField::Provider),
        Some(SettingsField::Provider) => Some(SettingsField::ApiKey),
        Some(SettingsField::ApiKey) => Some(SettingsField::BaseUrl),
        Some(SettingsField::BaseUrl) => Some(SettingsField::Model),
        Some(SettingsField::Model) => None,
    }
}

/// The field before `f` in tab order; `None` stands for no field.
pub open spec fn field_before(f: Option<SettingsField>) -> Option<SettingsField> {
    match f {
        None => Some(SettingsField::Model),
        Some(SettingsField::Model) => Some(SettingsField::BaseUrl),
        Some(SettingsField::BaseUrl) => Some(SettingsField::ApiKey),
        Some(SettingsField::ApiKey) => Some(SettingsField::Provider),
        Some(SettingsField::Provider) => None,
    }
}

/// `n` bullet characters.
pub open spec fn bullets(n: nat) -> Seq<char> {
    Seq::new(n, |i: int| '•')
}

/// The API key as displayed: one bullet per character but the last four
/// characters, which are shown as they are (all bullets when there are at most four).
pub open spec fn masked(key: Seq<char>) -> Seq<char> {
    let n = key.len();
    if n <= 4 {
        bullets(n)
    } else {
        bullets((n - 4) as nat) + key.subrange(n - 4, n as int)
    }
}

/// `s` without its last character (unchanged when empty).
pub open spec fn without_last(s: Seq<char>) -> Seq<char> {
    if s.len() > 0 {
        s.drop_last()
    } else {
        s
    }
}

/// Appends `n` bullets to `dst`.
fn push_bullets(dst: &mut String, n: usize)
    ensures
        final(dst)@ == old(dst)@ + bullets(n as nat),
{
    let ghost start = dst@;
    let mut i: usize = 0;
    while i < n
        invariant
            i <= n,
            dst@ == start + bullets(i as nat),
        decreases n - i,
    {
        dst.push('•');
        i = i + 1;
        assert(bullets(i as nat) =~= bullets((i - 1) as nat).push('•'));
    }
}

impl SettingsPanel {
    /// Provider `openai`, model `gpt-4`, everything else empty.
    pub fn new() -> (r: Self)
        ensures
            r.provider@ == "openai"@,
            r.api_key@.len() == 0,
            r.base_url@.len() == 0,
            r.model@ == "gpt-4"@,
            r.active_field is None,
            r.hover_button is None,
            r.test_status@.len() == 0,
            !r.is_testing,
    {
        SettingsPanel {
            provider: to_string("openai"),
            api_key: String::new(),
            base_url: String::new(),
            model: to_string("gpt-4"),
            active_field: None,
            hover_button: None,
            test_status: String::new(),
            is_testing: false,
        }
    }

    /// A panel showing `settings`; a missing endpoint shows as empty.
    pub fn from_settings(settings: &AiSettings) -> (r: Self)
        ensures
            r.provider@ == settings.provider@,
            r.api_key@ == settings.api_key@,
            r.base_url@ == (match settings.base_url {
                Some(u) => u@,
                None => Seq::empty(),
            }),
            r.model@ == settings.model@,
            r.active_field is None,
            r.hover_button is None,
            r.test_status@.len() == 0,
            !r.is_testing,
    {
        let mut r = SettingsPanel::new();
        r.apply_settings(settings);
        r
    }

    /// The settings the panel holds; an empty endpoint means none.
    pub fn to_ai_settings(&self) -> (r: AiSettings)
        ensures
            r.provider@ == self.provider@,
            r.api_key@ == self.api_key@,
            self.base_url@.len() == 0 ==> r.base_url is None,
            self.base_url@.len() > 0 ==> (r.base_url matches Some(u) && u@ == self.base_url@),
            r.model@ == self.model@,
    {
        AiSettings {
            provider: to_string(self.provider.as_str()),
            api_key: to_string(self.api_key.as_str()),
            base_url: if self.base_url.as_str().is_empty() {
                None
            } else {
                Some(to_string(self.base_url.as_str()))
            },
            model: to_string(self.model.as_str()),
        }
    }

    /// Shows `settings` in the four fields; the rest of the panel is left alone.
    pub fn apply_settings(&mut self, settings: &AiSettings)
        ensures
            *final(self) == (SettingsPanel { provider: final(self).provider, api_key: final(self).api_key, base_url: final(self).base_url, model: final(self).model, ..*old(self) }),
            final(self).provider@ == settings.provider@,
            final(self).api_key@ == settings.api_key@,
            final(self).base_url@ == (match settings.base_url {
                Some(u) => u@,
                None => Seq::empty(),
            }),
            final(self).model@ == settings.model@,
            final(self).active_field == old(self).active_field,
            final(self).hover_button == old(self).hover_button,
            final(self).test_status == old(self).test_status,
            final(self).is_testing == old(self).is_testing,
    {
        self.provider = to_string(settings.provider.as_str());
        self.api_key = to_string(settings.api_key.as_str());
        self.base_url = match &settings.base_url {
            Some(u) => to_string(u.as_str()),
            None => String::new(),
        };
        self.model = to_string(settings.model.as_str());
    }

    /// Types `ch` into the active field, if any.
    pub fn input_char(&mut self, ch: char)
        ensures
            *final(self) == (SettingsPanel { provider: final(self).provider, api_key: final(self).api_key, base_url: final(self).base_url, model: final(self).model, ..*old(self) }),
            final(self).provider@ == (if old(self).active_field == Some(SettingsField::Provider) {
                old(self).provider@.push(ch)
            } else {
                old(self).provider@
            }),
            final(self).api_key@ == (if old(self).active_field == Some(SettingsField::ApiKey) {
                old(self).api_key@.push(ch)
            } else {
                old(self).api_key@
            }),
            final(self).base_url@ == (if old(self).active_field == Some(SettingsField::BaseUrl) {
                old(self).base_url@.push(ch)
            } else {
                old(self).base_url@
            }),
            final(self).model@ == (if old(self).active_field == Some(SettingsField::Model) {
                old(self).model@.push(ch)
            } else {
                old(self).model@
            }),
            final(self).active_field == old(self).active_field,
    {
        match self.active_field {
            Some(SettingsField::Provider) => self.provider.push(ch),
            Some(SettingsField::ApiKey) => self.api_key.push(ch),
            Some(SettingsField::BaseUrl) => self.base_url.push(ch),
            Some(SettingsField::Model) => self.model.push(ch),
            None => {},
        }
    }

    /// Removes the last character of the active field, if any.
    pub fn backspace(&mut self)
        ensures
            *final(self) == (SettingsPanel { provider: final(self).provider, api_key: final(self).api_key, base_url: final(self).base_url, model: final(self).model, ..*old(self) }),
            final(self).provider@ == (if old(self).active_field == Some(SettingsField::Provider) {
                without_last(old(self).provider@)
            } else {
                old(self).provider@
            }),
            final(self).api_key@ == (if old(self).active_field == Some(SettingsField::ApiKey) {
                without_last(old(self).api_key@)
            } else {
                old(self).api_key@
            }),
            final(self).base_url@ == (if old(self).active_field == Some(SettingsField::BaseUrl) {
                without_last(old(self).base_url@)
            } else {
                old(self).base_url@
            }),
            final(self).model@ == (if old(self).active_field == Some(SettingsField::Model) {
                without_last(old(self).model@)
            } else {
                old(self).model@
            }),
            final(self).active_field == old(self).active_field,
    {
        match self.active_field {
            Some(SettingsField::Provider) => {
                let _ = self.provider.pop();
            },
            Some(SettingsField::ApiKey) => {
                let _ = self.api_key.pop();
            },
            Some(SettingsField::BaseUrl) => {
                let _ = self.base_url.pop();
            },
            Some(SettingsField::Model) => {
                let _ = self.model.pop();
            },
            None => {},
        }
    }

    /// Focuses the next field; after the last one no field is focused.
    pub fn next_field(&mut self)
        ensures
            *final(self) == (SettingsPanel { active_field: field_after(old(self).active_field), ..*old(self) }),
            final(self).active_field == field_after(old(self).active_field),
            final(self).provider == old(self).provider,
            final(self).api_key == old(self).api_key,
            final(self).base_url == old(self).base_url,
            final(self).model == old(self).model,
    {
        self.active_field = match self.active_field {
            None => Some(SettingsField::Provider),
            Some(SettingsField::Provider) => Some(SettingsField::ApiKey),
            Some(SettingsField::ApiKey) => Some(SettingsField::BaseUrl),
            Some(SettingsField::BaseUrl) => Some(SettingsField::Model),
            Some(SettingsField::Model) => None,
        };
    }

    /// Focuses the previous field; before the first one no field is focused.
    pub fn prev_field(&mut self)
        ensures
            *final(self) == (SettingsPanel { active_field: field_before(old(self).active_field), ..*old(self) }),
            final(self).active_field == field_before(old(self).active_field),
            final(self).provider == old(self).provider,
            final(self).api_key == old(self).api_key,
            final(self).base_url == old(self).base_url,
            final(self).model == old(self).model,
    {
        self.active_field = match self.active_field {
            None => Some(SettingsField::Model),
            Some(SettingsField::Model) => Some(SettingsField::BaseUrl),
            Some(SettingsField::BaseUrl) => Some(SettingsField::ApiKey),
            Some(SettingsField::ApiKey) => Some(SettingsField::Provider),
            Some(SettingsField::Provider) => None,
        };
    }

    /// The API key for display: bullets for all but its last four characters.
    pub fn masked_api_key(&self) -> (r: String)
        ensures
            r@ == masked(self.api_key@),
    {
        let cs = chars_of(self.api_key.as_str());
        let n = cs.len();
        let mut r = String::new();
        if n <= 4 {
            push_bullets(&mut r, n);
            return r;
        }
        let k = n - 4;
        push_bullets(&mut r, k);
        let mut i = k;
        let ghost start = r@;
        while i < n
            invariant
                k <= i <= n == cs@.len(),
                r@ == start + cs@.subrange(k as int, i as int),
            decreases n - i,
        {
            r.push(cs[i]);
            i = i + 1;
            assert(cs@.subrange(k as int, i as int) =~= cs@.subrange(k as int, i - 1).push(
                cs@[i - 1],
            ));
        }
        r
    }
}

/// Tabbing forward and then back returns to the same field.
pub proof fn lemma_next_then_prev_field(f: Option<SettingsField>)
    ensures
        field_before(field_after(f)) == f,
{
}

/// Tabbing back and then forward returns to the same field.
pub proof fn lemma_prev_then_next_field(f: Option<SettingsField>)
    ensures
        field_after(field_before(f)) == f,
{
}

/// Five steps forward visit every field once and come back.
pub proof fn lemma_field_cycle(f: Option<SettingsField>)
    ensures
        field_after(field_after(field_after(field_after(field_after(f))))) == f,
{
}

} // verus!
