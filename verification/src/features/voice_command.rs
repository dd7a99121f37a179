//! Voice commands: map recognised speech to command-palette actions.
use vstd::prelude::*;
use crate::text::{chars_of, contains_chars, lowercase, occurs_in, to_lowercase};

verus! {

/// One phrase and the command it triggers.
#[derive(Clone)]
pub struct VoiceMapping {
    pub phrase: String,
    /// Command palette id.
    pub action: String,
}

/// The phrase-to-command table.
pub struct VoiceCommands {
    pub enabled: bool,
    pub commands: Vec<VoiceMapping>,
}

/// Whether mapping `m` matches recognised text `text`: its lowercased
/// phrase occurs in the lowercased text.
pub open spec fn phrase_matches(m: VoiceMapping, text: Seq<char>) -> bool {
    occurs_in(lowercase(m.phrase@), lowercase(text))
}

fn mapping(phrase: &str, action: &str) -> (m: VoiceMapping)
    ensures
        m.phrase@ == phrase@,
        m.action@ == action@,
{
    VoiceMapping { phrase: phrase.to_string(), action: action.to_string() }
}

impl VoiceCommands {
    /// The built-in English and Japanese phrases, disabled.
    pub fn new() -> (v: Self)
        ensures
            !v.enabled,
            v.commands@.len() == 10,
            v.commands@[0].phrase@ == "screenshot"@ && v.commands@[0].action@ == "screenshot"@,
            v.commands@[1].phrase@ == "スクリーンショット"@ && v.commands@[1].action@ == "screenshot"@,
            v.commands@[2].phrase@ == "record"@ && v.commands@[2].action@ == "record_start"@,
            v.commands@[3].phrase@ == "録画"@ && v.commands@[3].action@ == "record_start"@,
            v.commands@[4].phrase@ == "stop"@ && v.commands@[4].action@ == "record_stop"@,
            v.commands@[5].phrase@ == "停止"@ && v.commands@[5].action@ == "record_stop"@,
            v.commands@[6].phrase@ == "zoom in"@ && v.commands@[6].action@ == "zoom_in"@,
            v.commands@[7].phrase@ == "quit"@ && v.commands@[7].action@ == "quit"@,
            v.commands@[8].phrase@ == "終了"@ && v.commands@[8].action@ == "quit"@,
            v.commands@[9].phrase@ == "ocr"@ && v.commands@[9].action@ == "ocr"@,
    {
        let mut commands = Vec::new();
        commands.push(mapping("screenshot", "screenshot"));
        commands.push(mapping("スクリーンショット", "screenshot"));
        commands.push(mapping("record", "record_start"));
        commands.push(mapping("録画", "record_start"));
        commands.push(mapping("stop", "record_stop"));
        commands.push(mapping("停止", "record_stop"));
        commands.push(mapping("zoom in", "zoom_in"));
        commands.push(mapping("quit", "quit"));
        commands.push(mapping("終了", "quit"));
        commands.push(mapping("ocr", "ocr"));
        VoiceCommands { enabled: false, commands }
    }

    /// The action of the first mapping whose phrase occurs in `text`,
    /// compared case-insensitively.
    pub fn match_speech(&self, text: &str) -> (r: Option<&str>)
        ensures
            match r {
                Some(a) => exists|i: int|
                    0 <= i < self.commands@.len() && phrase_matches(self.commands@[i], text@)
                        && a@ == self.commands@[i].action@ && forall|j: int|
                        0 <= j < i ==> !#[trigger] phrase_matches(self.commands@[j], text@),
                None => forall|j: int|
                    0 <= j < self.commands@.len() ==> !#[trigger] phrase_matches(self.commands@[j], text@),
            },
    {
        let lower = to_lowercase(text);
        let hay = chars_of(lower.as_str());
        let mut i: usize = 0;
        while i < self.commands.len()
            invariant
                i <= self.commands@.len(),
                hay@ == lowercase(text@),
                forall|j: int| 0 <= j < i ==> !#[trigger] phrase_matches(self.commands@[j], text@),
            decreases self.commands@.len() - i,
        {
            let phrase = to_lowercase(self.commands[i].phrase.as_str());
            let needle = chars_of(phrase.as_str());
            if contains_chars(&hay, &needle) {
                assert(phrase_matches(self.commands@[i as int], text@));
                return Some(self.commands[i].action.as_str());
            }
            i = i + 1;
        }
        None
    }
}

} // verus!
