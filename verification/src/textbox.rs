//! What a key press in the message box does: sending, editing the last
//! message with a `s/pattern/replacement/` command, recalling the last
//! message for editing, pasting files.

use vstd::prelude::*;
use regex::Regex;
use crate::model::opt_view;
use crate::markdown::inline::{find_char, lemma_find_char_bounds, scan_char};
use crate::text::{
    str_eq, parse_usize, spec_parse_usize, replace_occurrences, spec_replacen, spec_replace_all,
};

verus! {

/// The parts of a `s/pattern/replacement/flags` command.
#[derive(Debug, PartialEq)]
pub struct SedCommand {
    pub pattern: String,
    pub replacement: String,
    pub flags: Option<String>,
}

/// A command as plain values.
pub type SedCommandV = (Seq<char>, Seq<char>, Option<Seq<char>>);

impl View for SedCommand {
    type V = SedCommandV;

    open spec fn view(&self) -> SedCommandV {
        (
            self.pattern@,
            self.replacement@,
            match self.flags {
                Some(f) => Some(f@),
                None => None,
            },
        )
    }
}

/// The view of an optional command.
pub open spec fn sed_view(c: Option<SedCommand>) -> Option<SedCommandV> {
    match c {
        Some(c) => Some(c@),
        None => None,
    }
}

/// What `regex::Regex` makes of `pattern` on `text`: `None` where the
/// pattern does not compile, else whether it matches somewhere in `text`.
pub uninterp spec fn regex_outcome(pattern: Seq<char>, text: Seq<char>) -> Option<bool>;

/// `Regex::new(pattern)` then `Regex::is_match(text)`. The contract claims
/// only that the result is the named value for `pattern` and `text`: the
/// regex semantics are left to the `regex` crate.
#[verifier::external_body]
fn regex_is_match(pattern: &str, text: &str) -> (r: Option<bool>)
    ensures
        r == regex_outcome(pattern@, text@),
{
    match Regex::new(pattern) {
        Ok(re) => Some(re.is_match(text)),
        Err(_) => None,
    }
}

/// The pattern that holds exactly one decimal digit, in the regex sense of
/// `\d` (any Unicode decimal digit).
pub open spec fn digit_pattern() -> Seq<char> {
    seq!['^', '\\', 'd', '$']
}

/// `c` is a decimal digit as the regex class `\d` has it.
pub open spec fn regex_digit(c: char) -> bool {
    regex_outcome(digit_pattern(), seq![c]) == Some(true)
}

fn is_regex_digit(c: char) -> (r: bool)
    ensures
        r == regex_digit(c),
{
    let pattern = "^\\d$";
    proof {
        reveal_strlit("^\\d$");
        assert(pattern@ =~= digit_pattern());
    }
    let mut t = String::new();
    crate::text::push_char(&mut t, c);
    proof {
        assert(t@ =~= seq![c]);
    }
    match regex_is_match(pattern, t.as_str()) {
        Some(b) => b,
        None => false,
    }
}

/// The flags after the last `/` of a command: `g`, or one or more digits.
pub open spec fn valid_flags(f: Seq<char>) -> bool {
    f == seq!['g'] || (f.len() > 0 && forall|k: int| 0 <= k < f.len() ==> regex_digit(#[trigger] f[k]))
}

/// The edit command `text` spells, if any: `s/`, a pattern and a
/// replacement without `/` and not empty, each after a `/`, then
/// optionally a `/` with flags `g` or digits, or with nothing. This is the
/// grammar `^s/([^/]+)/([^/]+)(?:/(g|(?:\d+))?)?$`.
pub open spec fn spec_sed_parse(t: Seq<char>) -> Option<SedCommandV> {
    if t.len() >= 2 && t[0] == 's' && t[1] == '/' {
        let i = find_char(t, 2, '/');
        if 2 < i && i < t.len() {
            let j = find_char(t, i + 1, '/');
            if i + 1 < j {
                if j == t.len() {
                    Some((t.subrange(2, i), t.subrange(i + 1, j), None))
                } else {
                    let f = t.subrange(j + 1, t.len() as int);
                    if f.len() == 0 {
                        Some((t.subrange(2, i), t.subrange(i + 1, j), None))
                    } else if valid_flags(f) {
                        Some((t.subrange(2, i), t.subrange(i + 1, j), Some(f)))
                    } else {
                        None
                    }
                }
            } else {
                None
            }
        } else {
            None
        }
    } else {
        None
    }
}

fn flags_valid(f: &[char]) -> (r: bool)
    ensures
        r == valid_flags(f@),
{
    if f.len() == 1 && f[0] == 'g' {
        proof {
            assert(f@ =~= seq!['g']);
        }
        return true;
    }
    proof {
        if f@ == seq!['g'] {
            assert(f@.len() == 1 && f@[0] == 'g');
        }
    }
    if f.len() == 0 {
        return false;
    }
    let mut k: usize = 0;
    while k < f.len()
        invariant
            k <= f.len(),
            f@ != seq!['g'],
            forall|m: int| 0 <= m < k ==> regex_digit(#[trigger] f@[m]),
        decreases f.len() - k,
    {
        if !is_regex_digit(f[k]) {
            return false;
        }
        k = k + 1;
    }
    true
}

/// The edit command that `text` spells, if it spells one.
pub fn sed_parse(text: &str) -> (r: Option<SedCommand>)
    ensures
        sed_view(r) == spec_sed_parse(text@),
{
    let t = crate::text::chars_of(text);
    let n = t.len();
    if n < 2 || t[0] != 's' || t[1] != '/' {
        return None;
    }
    let i = scan_char(t.as_slice(), 2, '/');
    if i <= 2 || i >= n {
        return None;
    }
    let j = scan_char(t.as_slice(), i + 1, '/');
    if j <= i + 1 {
        return None;
    }
    proof {
        lemma_find_char_bounds(t@, 2, '/');
        lemma_find_char_bounds(t@, i + 1, '/');
    }
    let pattern = crate::text::string_of(&t.as_slice()[2..i]);
    let replacement = crate::text::string_of(&t.as_slice()[i + 1..j]);
    if j == n {
        return Some(SedCommand { pattern, replacement, flags: None });
    }
    let f = &t.as_slice()[j + 1..n];
    if f.len() == 0 {
        Some(SedCommand { pattern, replacement, flags: None })
    } else if flags_valid(f) {
        let flags = crate::text::string_of(f);
        Some(SedCommand { pattern, replacement, flags: Some(flags) })
    } else {
        None
    }
}

/// How many occurrences a command replaces: every one without flags or
/// with `g`, otherwise the number given, or one where it does not parse.
pub open spec fn spec_sed_count(flags: Option<Seq<char>>) -> Option<nat> {
    match flags {
        None => None,
        Some(f) => if f == seq!['g'] {
            None
        } else {
            Some(
                match spec_parse_usize(f) {
                    Some(n) => n as nat,
                    None => 1,
                },
            )
        },
    }
}

/// The text of a message after command `cmd`.
pub open spec fn spec_sed_apply(cmd: SedCommandV, content: Seq<char>) -> Seq<char> {
    match spec_sed_count(cmd.2) {
        Some(n) => spec_replacen(content, cmd.0, cmd.1, n),
        None => spec_replace_all(content, cmd.0, cmd.1),
    }
}

/// How many occurrences command flags ask to replace (`None`: all).
pub fn sed_count(flags: &Option<String>) -> (r: Option<usize>)
    ensures
        r is None <==> spec_sed_count(opt_view(*flags)) is None,
        r is Some ==> spec_sed_count(opt_view(*flags)) == Some(r->0 as nat),
{
    match flags {
        None => None,
        Some(f) => {
            let g = "g";
            proof {
                reveal_strlit("g");
                assert(g@ =~= seq!['g']);
            }
            if str_eq(f.as_str(), g) {
                None
            } else {
                match parse_usize(f.as_str()) {
                    Some(n) => Some(n),
                    None => Some(1),
                }
            }
        },
    }
}

/// The text of message `content` after command `cmd`.
pub fn sed_apply(cmd: &SedCommand, content: &str) -> (r: String)
    ensures
        r@ == spec_sed_apply(cmd@, content@),
{
    let count = sed_count(&cmd.flags);
    replace_occurrences(content, cmd.pattern.as_str(), cmd.replacement.as_str(), count)
}

/// The key pressed, as far as the message box tells keys apart.
#[derive(Debug, PartialEq, Eq, Clone, Copy, Structural)]
pub enum KeyKind {
    Enter,
    ArrowUp,
    ArrowDown,
    /// `v` with Ctrl or Cmd held.
    Paste,
    Other,
}

/// The user's last message in the channel.
#[derive(Debug, PartialEq)]
pub struct LastMessage {
    pub id: String,
    pub content: String,
}

/// What the message box state is when a key goes down.
pub struct ComposerState {
    /// The autocomplete popup is open.
    pub autocomplete_visible: bool,
    /// The text in the box.
    pub content: String,
    pub attachments_empty: bool,
    pub replies_empty: bool,
    pub last_message: Option<LastMessage>,
    /// The channel's slowmode has not run out yet.
    pub slowmode_active: bool,
}

/// What a key press in the message box leads to.
#[derive(Debug, PartialEq)]
pub enum KeyAction {
    /// The autocomplete popup handles the key.
    ToAutocomplete,
    /// Nothing happens.
    Nothing,
    /// The box is cleared and the last message is edited to `content`.
    EditLast { message_id: String, content: String },
    /// The box is cleared and its text is sent with the prepared replies
    /// and attachments.
    Send,
    /// The last message is opened for editing.
    StartEditing { message_id: String },
    /// The files on the clipboard are attached.
    PasteFiles,
    /// The text editor handles the key.
    ToEditor,
}

/// Key press outcomes as plain values.
pub enum KeyActionV {
    ToAutocomplete,
    Nothing,
    EditLast { message_id: Seq<char>, content: Seq<char> },
    Send,
    StartEditing { message_id: Seq<char> },
    PasteFiles,
    ToEditor,
}

impl View for KeyAction {
    type V = KeyActionV;

    open spec fn view(&self) -> KeyActionV {
        match self {
            KeyAction::ToAutocomplete => KeyActionV::ToAutocomplete,
            KeyAction::Nothing => KeyActionV::Nothing,
            KeyAction::EditLast { message_id, content } => KeyActionV::EditLast {
                message_id: message_id@,
                content: content@,
            },
            KeyAction::Send => KeyActionV::Send,
            KeyAction::StartEditing { message_id } => KeyActionV::StartEditing { message_id: message_id@ },
            KeyAction::PasteFiles => KeyActionV::PasteFiles,
            KeyAction::ToEditor => KeyActionV::ToEditor,
        }
    }
}

/// What a key press leads to, given the edit command read from the text
/// (`sed`, the result of matching the text against the command pattern):
/// - with the popup open, Enter and the arrows go to it;
/// - Enter without Shift does nothing on an empty box with nothing
///   attached; with no attachments or replies, a last message and a
///   command, edits that message; otherwise sends, unless slowmode holds;
/// - ArrowUp without Shift on an empty box recalls the last message;
/// - Ctrl/Cmd+V with files on the clipboard attaches them;
/// - anything else goes to the editor.
pub open spec fn spec_key_action(
    key: KeyKind,
    shift: bool,
    clipboard_has_files: bool,
    s: &ComposerState,
    sed: Option<SedCommandV>,
) -> KeyActionV {
    if s.autocomplete_visible && (key == KeyKind::Enter || key == KeyKind::ArrowUp || key == KeyKind::ArrowDown) {
        KeyActionV::ToAutocomplete
    } else if key == KeyKind::Enter && !shift {
        if s.content@.len() == 0 && s.attachments_empty {
            KeyActionV::Nothing
        } else if s.attachments_empty && s.replies_empty && s.last_message is Some && sed is Some {
            KeyActionV::EditLast {
                message_id: s.last_message->0.id@,
                content: spec_sed_apply(sed->0, s.last_message->0.content@),
            }
        } else if s.slowmode_active {
            KeyActionV::Nothing
        } else {
            KeyActionV::Send
        }
    } else if key == KeyKind::ArrowUp && !shift && s.content@.len() == 0 {
        if s.last_message is Some {
            KeyActionV::StartEditing { message_id: s.last_message->0.id@ }
        } else {
            KeyActionV::Nothing
        }
    } else if key == KeyKind::Paste && clipboard_has_files {
        KeyActionV::PasteFiles
    } else {
        KeyActionV::ToEditor
    }
}

/// What a key press leads to, given the command already read from the
/// text.
pub fn key_action_with(
    key: KeyKind,
    shift: bool,
    clipboard_has_files: bool,
    s: &ComposerState,
    sed: Option<SedCommand>,
) -> (r: KeyAction)
    ensures
        r@ == spec_key_action(key, shift, clipboard_has_files, s, sed_view(sed)),
{
    if s.autocomplete_visible && (key == KeyKind::Enter || key == KeyKind::ArrowUp || key == KeyKind::ArrowDown) {
        KeyAction::ToAutocomplete
    } else if key == KeyKind::Enter && !shift {
        let empty = s.content.as_str().is_empty();
        if empty && s.attachments_empty {
            return KeyAction::Nothing;
        }
        if s.attachments_empty && s.replies_empty {
            if let Some(m) = &s.last_message {
                if let Some(cmd) = &sed {
                    let content = sed_apply(cmd, m.content.as_str());
                    return KeyAction::EditLast { message_id: m.id.clone(), content };
                }
            }
        }
        if s.slowmode_active {
            KeyAction::Nothing
        } else {
            KeyAction::Send
        }
    } else if key == KeyKind::ArrowUp && !shift && s.content.as_str().is_empty() {
        match &s.last_message {
            Some(m) => KeyAction::StartEditing { message_id: m.id.clone() },
            None => KeyAction::Nothing,
        }
    } else if key == KeyKind::Paste && clipboard_has_files {
        KeyAction::PasteFiles
    } else {
        KeyAction::ToEditor
    }
}

/// What a key press in the message box leads to. The text is matched
/// against the edit-command pattern only where an edit is possible.
pub fn key_action(key: KeyKind, shift: bool, clipboard_has_files: bool, s: &ComposerState) -> (r: KeyAction)
    ensures
        r@ == spec_key_action(
            key,
            shift,
            clipboard_has_files,
            s,
            if key == KeyKind::Enter && !shift && !s.autocomplete_visible && s.attachments_empty && s.replies_empty
                && s.last_message is Some {
                spec_sed_parse(s.content@)
            } else {
                None
            },
        ),
{
    let editable = key == KeyKind::Enter && !shift && !s.autocomplete_visible && s.attachments_empty
        && s.replies_empty && s.last_message.is_some();
    let sed = if editable {
        sed_parse(s.content.as_str())
    } else {
        None
    };
    key_action_with(key, shift, clipboard_has_files, s, sed)
}

} // verus!

verus! {

/// While the autocomplete popup is open, Enter and the arrows never reach
/// the message box.
pub proof fn law_open_popup_takes_its_keys(key: KeyKind, shift: bool, clipboard_has_files: bool, s: &ComposerState, sed: Option<SedCommandV>)
    requires
        s.autocomplete_visible,
        key == KeyKind::Enter || key == KeyKind::ArrowUp || key == KeyKind::ArrowDown,
    ensures
        spec_key_action(key, shift, clipboard_has_files, s, sed) == KeyActionV::ToAutocomplete,
{
}

/// Nothing is sent while the channel's slowmode holds, and Shift+Enter
/// never sends or edits.
pub proof fn law_no_send_under_slowmode_or_shift(key: KeyKind, shift: bool, clipboard_has_files: bool, s: &ComposerState, sed: Option<SedCommandV>)
    ensures
        s.slowmode_active ==> !(spec_key_action(key, shift, clipboard_has_files, s, sed) is Send),
        shift ==> !(spec_key_action(key, shift, clipboard_has_files, s, sed) is Send)
            && !(spec_key_action(key, shift, clipboard_has_files, s, sed) is EditLast),
{
}

/// An edit command is only run on the user's last message, and only when
/// nothing else would go with the message.
pub proof fn law_edits_only_the_last_message(key: KeyKind, shift: bool, clipboard_has_files: bool, s: &ComposerState, sed: Option<SedCommandV>)
    ensures
        spec_key_action(key, shift, clipboard_has_files, s, sed) is EditLast ==> s.last_message is Some
            && s.attachments_empty && s.replies_empty && sed is Some
            && spec_key_action(key, shift, clipboard_has_files, s, sed)->EditLast_message_id == s.last_message->0.id@,
{
}

} // verus!

verus! {

/// Enter on a message box whose text is an edit command, with nothing
/// attached or replied to and a last message to edit, edits that message
/// with the command, whether or not the channel's slowmode holds: slowmode
/// only holds back sending.
pub proof fn law_edit_command_ignores_slowmode(clipboard_has_files: bool, s: &ComposerState, sed: SedCommandV)
    requires
        !s.autocomplete_visible,
        s.content@.len() > 0,
        s.attachments_empty,
        s.replies_empty,
        s.last_message is Some,
    ensures
        spec_key_action(KeyKind::Enter, false, clipboard_has_files, s, Some(sed)) == (KeyActionV::EditLast {
            message_id: s.last_message->0.id@,
            content: spec_sed_apply(sed, s.last_message->0.content@),
        }),
        spec_key_action(
            KeyKind::Enter,
            false,
            clipboard_has_files,
            &ComposerState { slowmode_active: !s.slowmode_active, ..*s },
            Some(sed),
        ) == spec_key_action(KeyKind::Enter, false, clipboard_has_files, s, Some(sed)),
{
}

/// The same for the text itself: where it spells an edit command, Enter
/// edits the last message with that command, under slowmode too.
pub proof fn law_typed_edit_command_edits(clipboard_has_files: bool, s: &ComposerState)
    requires
        !s.autocomplete_visible,
        s.attachments_empty,
        s.replies_empty,
        s.last_message is Some,
        spec_sed_parse(s.content@) is Some,
    ensures
        spec_key_action(KeyKind::Enter, false, clipboard_has_files, s, spec_sed_parse(s.content@)) == (
        KeyActionV::EditLast {
            message_id: s.last_message->0.id@,
            content: spec_sed_apply(spec_sed_parse(s.content@)->0, s.last_message->0.content@),
        }),
{
}

} // verus!
