//! The file that keeps the servers and the settings.

use vstd::prelude::*;
use vstd::slice::slice_subrange;
use vstd::string::StringExecFns;

use crate::number;
use crate::number::{clamp, push_decimal, read_unsigned};
use crate::server;
use crate::server::NtpServerInfo;
use crate::settings::{Settings, MAX_UPDATE_SECONDS, MIN_UPDATE_SECONDS};
use crate::text;
use crate::text::{chars_of, find, line_list, same_text, starts_with, string_of, trimmed};

verus! {

/// The name of the file that keeps the servers and the settings.
pub const CONFIG_FILE: &'static str = "ntp_servers.ini";

/// What a file says: the servers in their order, and the settings that it holds.
pub struct Ini {
    pub servers: Seq<Seq<char>>,
    pub frequency: Option<u64>,
    pub timezone: Option<Seq<char>>,
}

/// What the lines read so far say, and the section that they end in.
pub struct IniState {
    pub section: Seq<char>,
    pub ini: Ini,
}

/// What a line says.
pub enum IniLine {
    /// Nothing: the line is empty, a comment, or neither a section nor an entry.
    Nothing,
    /// The start of a section.
    Section { name: Seq<char> },
    /// An entry.
    Entry { key: Seq<char>, value: Seq<char> },
}

/// What a trimmed line says.
pub open spec fn classify(line: Seq<char>) -> IniLine {
    if line.len() == 0 || line[0] == '#' || line[0] == ';' {
        IniLine::Nothing
    } else if line[0] == '[' && line.last() == ']' {
        IniLine::Section { name: line.subrange(1, line.len() - 1) }
    } else {
        match text::split_once(line, '=') {
            Some((key, value)) => IniLine::Entry { key: text::trim(key), value: text::trim(value) },
            None => IniLine::Nothing,
        }
    }
}

/// The frequency that the value of an entry sets, moved into its range.
pub open spec fn frequency_of(value: Seq<char>) -> Option<u64> {
    match number::parse_unsigned(value) {
        Some(n) => Some(
            number::clamped(n as int, MIN_UPDATE_SECONDS as int, MAX_UPDATE_SECONDS as int) as u64,
        ),
        None => None,
    }
}

impl Ini {
    /// Nothing said yet.
    pub open spec fn empty() -> Ini {
        Ini { servers: seq![], frequency: None, timezone: None }
    }

    /// The servers and the time zone are clean, and the frequency lies in its range.
    pub open spec fn wf(self) -> bool {
        &&& forall|i: int| 0 <= i < self.servers.len() ==> text::is_clean(#[trigger] self.servers[i])
        &&& self.frequency matches Some(n) ==> MIN_UPDATE_SECONDS <= n <= MAX_UPDATE_SECONDS
        &&& self.timezone matches Some(timezone) ==> text::is_clean(timezone)
    }

    /// With what an entry of `section` says. A later setting takes the place of an earlier one;
    /// a frequency that is no number says nothing, and so does an unknown key.
    pub open spec fn with_entry(self, section: Seq<char>, key: Seq<char>, value: Seq<char>) -> Ini {
        if section == "servers"@ && "server"@.is_prefix_of(key) {
            Ini { servers: self.servers.push(value), ..self }
        } else if section == "settings"@ && key == "update_frequency_seconds"@ {
            match frequency_of(value) {
                Some(n) => Ini { frequency: Some(n), ..self },
                None => self,
            }
        } else if section == "settings"@ && key == "timezone"@ {
            Ini { timezone: Some(value), ..self }
        } else {
            self
        }
    }
}

impl IniState {
    /// Before the first line, in a section without a name.
    pub open spec fn start() -> IniState {
        IniState { section: seq![], ini: Ini::empty() }
    }

    /// After one more line.
    pub open spec fn step(self, line: Seq<char>) -> IniState {
        match classify(text::trim(line)) {
            IniLine::Nothing => self,
            IniLine::Section { name } => IniState { section: name, ..self },
            IniLine::Entry { key, value } => IniState {
                ini: self.ini.with_entry(self.section, key, value),
                ..self
            },
        }
    }

    /// After `lines`.
    pub open spec fn run(self, lines: Seq<Seq<char>>) -> IniState
        decreases lines.len(),
    {
        if lines.len() == 0 {
            self
        } else {
            self.step(lines[0]).run(lines.drop_first())
        }
    }
}

/// What a file with these contents says.
pub open spec fn ini_of(contents: Seq<char>) -> Ini {
    IniState::start().run(text::lines(contents)).ini
}

/// What a file says.
#[derive(Debug, PartialEq, Eq)]
pub struct IniConfig {
    pub servers: Vec<String>,
    pub update_frequency_seconds: Option<u64>,
    pub timezone: Option<String>,
}

impl View for IniConfig {
    type V = Ini;

    open spec fn view(&self) -> Ini {
        Ini {
            servers: text::texts(self.servers@),
            frequency: self.update_frequency_seconds,
            timezone: match self.timezone {
                Some(timezone) => Some(timezone@),
                None => None,
            },
        }
    }
}

impl IniConfig {
    /// Takes an entry of `section` in.
    fn take_entry(&mut self, section: &[char], key: &[char], value: &[char])
        ensures
            final(self)@ == old(self)@.with_entry(section@, key@, value@),
    {
        let ghost before = self.servers@;
        if same_text(section, "servers") && starts_with(key, "server") {
            self.servers.push(string_of(value));
            assert(text::texts(self.servers@) =~= text::texts(before).push(value@));
        } else if same_text(section, "settings") {
            if same_text(key, "update_frequency_seconds") {
                if let Some(n) = read_unsigned(value) {
                    self.update_frequency_seconds = Some(
                        clamp(n, MIN_UPDATE_SECONDS, MAX_UPDATE_SECONDS),
                    );
                }
            } else if same_text(key, "timezone") {
                self.timezone = Some(string_of(value));
            }
        }
    }
}

/// What a file with these contents says.
pub fn parse_ini(contents: &str) -> (r: IniConfig)
    ensures
        r@ == ini_of(contents@),
{
    let chars = chars_of(contents);
    let lines = line_list(&chars);
    let ghost texts = text::lines(contents@);
    let mut config = IniConfig {
        servers: Vec::new(),
        update_frequency_seconds: None,
        timezone: None,
    };
    let mut section: Vec<char> = Vec::new();
    assert(config@.servers =~= seq![]);
    assert(IniState { section: section@, ini: config@ } == IniState::start());
    assert(texts.skip(0) =~= texts);
    for i in 0..lines.len()
        invariant
            text::views(lines@) == texts,
            (IniState { section: section@, ini: config@ }).run(texts.skip(i as int))
                == IniState::start().run(texts),
    {
        let ghost state = IniState { section: section@, ini: config@ };
        assert(lines@[i as int]@ == text::views(lines@)[i as int]);
        assert(texts.skip(i as int)[0] == lines@[i as int]@);
        assert(texts.skip(i as int).drop_first() =~= texts.skip(i + 1));
        let line = trimmed(&lines[i]);
        let n: usize = line.len();
        if n == 0 || line[0] == '#' || line[0] == ';' {
            assert(classify(line@) == IniLine::Nothing);
        } else if line[0] == '[' && line[n - 1] == ']' {
            let name = slice_subrange(line, 1, n - 1);
            section = vstd::slice::slice_to_vec(name);
        } else {
            let k: usize = find(line, '=');
            if k < n {
                let key = trimmed(slice_subrange(line, 0, k));
                let value = trimmed(slice_subrange(line, k + 1, n));
                assert(line@.subrange(0, k as int) =~= line@.take(k as int));
                assert(line@.subrange(k + 1, n as int) =~= line@.skip(k + 1));
                config.take_entry(&section, key, value);
            }
        }
        assert(IniState { section: section@, ini: config@ } == state.step(lines@[i as int]@));
    }
    assert(texts.skip(texts.len() as int) =~= seq![]);
    config
}

/// The line of the server number `number`, counted from one.
pub open spec fn server_line(number: nat, name: Seq<char>) -> Seq<char> {
    "server"@ + number::decimal(number) + " = "@ + name
}

/// The lines of the servers from the index `from` on.
pub open spec fn server_lines(names: Seq<Seq<char>>, from: nat) -> Seq<char>
    decreases names.len() - from,
{
    if from >= names.len() {
        seq![]
    } else {
        server_line(from + 1, names[from as int]) + seq!['\n'] + server_lines(names, from + 1)
    }
}

/// The contents of the file that keeps these servers and settings.
pub open spec fn ini_text(names: Seq<Seq<char>>, frequency: nat, timezone: Seq<char>) -> Seq<char> {
    "[servers]\n"@ + server_lines(names, 0) + "\n[settings]\n"@ + "update_frequency_seconds = "@
        + number::decimal(frequency) + "\n"@ + "timezone = "@ + timezone + "\n"@
}

/// The contents of the file that keeps these servers and settings. Without servers there is
/// nothing to keep.
pub fn render_ini(servers: &Vec<NtpServerInfo>, settings: &Settings) -> (r: Option<String>)
    ensures
        r is Some <==> servers@.len() > 0,
        r matches Some(contents) ==> contents@ == ini_text(
            server::names(servers@),
            settings.update_frequency_seconds as nat,
            settings.timezone@,
        ),
{
    if servers.len() == 0 {
        return None;
    }
    let ghost names = server::names(servers@);
    let mut content: String = String::new();
    content.append("[servers]\n");
    assert(content@ + server_lines(names, 0) =~= "[servers]\n"@ + server_lines(names, 0));
    for i in 0..servers.len()
        invariant
            names == server::names(servers@),
            content@ + server_lines(names, i as nat) == "[servers]\n"@ + server_lines(names, 0),
    {
        let ghost before = content@;
        content.append("server");
        push_decimal(&mut content, i as u64 + 1);
        content.append(" = ");
        content.append(servers[i].name.as_str());
        content.push('\n');
        assert(names[i as int] == servers@[i as int].name@);
        assert(content@ =~= before + server_line((i + 1) as nat, names[i as int]) + seq!['\n']);
        assert(content@ + server_lines(names, (i + 1) as nat) =~= before + server_lines(
            names,
            i as nat,
        ));
    }
    assert(content@ + server_lines(names, names.len()) =~= content@);
    content.append("\n[settings]\n");
    content.append("update_frequency_seconds = ");
    push_decimal(&mut content, settings.update_frequency_seconds);
    content.append("\n");
    content.append("timezone = ");
    content.append(settings.timezone.as_str());
    content.append("\n");
    Some(content)
}

/// The text of an entry.
pub open spec fn entry_line(key: Seq<char>, value: Seq<char>) -> Seq<char> {
    key + " = "@ + value
}

/// A key that an entry can carry: not empty, without white space at its ends, without an
/// equals sign, and with no start that means something else.
pub open spec fn is_key(key: Seq<char>) -> bool {
    &&& key.len() > 0
    &&& !text::is_white_space(key[0])
    &&& !text::is_white_space(key.last())
    &&& !key.contains('=')
    &&& key[0] != '#' && key[0] != ';' && key[0] != '['
}

/// An entry says its key and its value.
pub proof fn entry_read_back(key: Seq<char>, value: Seq<char>)
    requires
        is_key(key),
        text::is_clean(value),
    ensures
        classify(text::trim(entry_line(key, value))) == (IniLine::Entry { key, value }),
{
    reveal_strlit(" = ");
    let line = entry_line(key, value);
    let left = key.push(' ');
    text::trim_settles(value);
    let right = if value.len() > 0 {
        seq![' '] + value
    } else {
        seq![]
    };
    let kept = left.push('=') + right;
    assert(text::trim(line) == kept) by {
        assert(line[0] == key[0]);
        if value.len() > 0 {
            assert(kept =~= line);
            assert(line.last() == value.last());
            text::lemma_trim_ends(value);
            text::lemma_trim_fixed(line);
        } else {
            assert(line.drop_last() =~= kept);
            text::lemma_trim_fixed(kept);
            assert(text::trim_start(line) == line);
            assert(text::trim_end(line) == text::trim_end(kept));
        }
    }
    assert(kept[0] == key[0]);
    assert forall|i: int| 0 <= i < left.len() implies kept[i] != '=' by {
        if i < key.len() {
            assert(kept[i] == key[i]);
            assert(key.contains(key[i]));
        }
    }
    text::lemma_first_index(kept, '=', left.len() as int);
    assert(kept.take(left.len() as int) =~= left);
    assert(kept.skip(left.len() as int + 1) =~= right);
    assert(text::trim(left) == key) by {
        assert(left[0] == key[0]);
        assert(left.drop_last() =~= key);
        assert(text::trim_start(left) == left);
        assert(text::trim_end(left) == text::trim_end(key));
    }
    assert(text::trim(right) == value) by {
        if value.len() > 0 {
            text::lemma_trim_ends(value);
            assert(right.drop_first() =~= value);
            assert(text::trim_start(right) == text::trim_start(value));
        } else {
            assert(value =~= seq![]);
        }
    }
}

proof fn lemma_lines_first(line: Seq<char>, rest: Seq<char>)
    requires
        !line.contains('\n'),
        line.len() > 0 ==> line.last() != '\r',
    ensures
        text::lines(line + seq!['\n'] + rest) == seq![line] + text::lines(rest),
{
    let all = line + seq!['\n'] + rest;
    assert forall|i: int| 0 <= i < line.len() implies all[i] != '\n' by {
        assert(line.contains(line[i]));
    }
    text::lemma_first_index(all, '\n', line.len() as int);
    assert(all.take(line.len() as int) =~= line);
    assert(all.skip(line.len() as int + 1) =~= rest);
}

proof fn lemma_run_line(state: IniState, line: Seq<char>, rest: Seq<char>)
    requires
        !line.contains('\n'),
        line.len() > 0 ==> line.last() != '\r',
    ensures
        state.run(text::lines(line + seq!['\n'] + rest)) == state.step(line).run(
            text::lines(rest),
        ),
{
    lemma_lines_first(line, rest);
    let all = text::lines(line + seq!['\n'] + rest);
    assert(all[0] == line);
    assert(all.drop_first() =~= text::lines(rest));
}

proof fn lemma_run_entry(state: IniState, key: Seq<char>, value: Seq<char>, rest: Seq<char>)
    requires
        is_key(key),
        !key.contains('\n'),
        text::is_clean(value),
    ensures
        state.run(text::lines(entry_line(key, value) + seq!['\n'] + rest)) == (IniState {
            ini: state.ini.with_entry(state.section, key, value),
            ..state
        }).run(text::lines(rest)),
{
    reveal_strlit(" = ");
    let line = entry_line(key, value);
    entry_read_back(key, value);
    assert(!line.contains('\n')) by {
        assert forall|i: int| 0 <= i < line.len() implies line[i] != '\n' by {
            if i < key.len() {
                assert(key.contains(key[i]));
            } else if i >= key.len() + 3 {
                assert(line[i] == value[i - key.len() - 3]);
                assert(value.contains(line[i]));
            }
        }
    }
    assert(line.last() != '\r') by {
        if value.len() > 0 {
            text::lemma_trim_ends(value);
            assert(line.last() == value.last());
        }
    }
    lemma_run_line(state, line, rest);
}

proof fn lemma_server_key(number: nat)
    ensures
        is_key("server"@ + number::decimal(number)),
        !("server"@ + number::decimal(number)).contains('\n'),
        "server"@.is_prefix_of("server"@ + number::decimal(number)),
{
    reveal_strlit("server");
    let digits = number::decimal(number);
    number::lemma_decimal(number);
    let key = "server"@ + digits;
    assert(number::is_digit(digits.last()));
    assert(key.last() == digits.last());
    assert forall|i: int| 0 <= i < key.len() implies key[i] != '=' && key[i] != '\n' by {
        if i >= 6 {
            assert(key[i] == digits[i - 6]);
            assert(number::is_digit(digits[i - 6]));
        }
    }
}

proof fn lemma_run_servers(state: IniState, names: Seq<Seq<char>>, from: nat, rest: Seq<char>)
    requires
        state.section == "servers"@,
        from <= names.len(),
        forall|i: int| 0 <= i < names.len() ==> text::is_clean(#[trigger] names[i]),
    ensures
        state.run(text::lines(server_lines(names, from) + rest)) == (IniState {
            ini: Ini { servers: state.ini.servers + names.skip(from as int), ..state.ini },
            ..state
        }).run(text::lines(rest)),
    decreases names.len() - from,
{
    if from == names.len() {
        assert(server_lines(names, from) + rest =~= rest);
        assert(state.ini.servers + names.skip(from as int) =~= state.ini.servers);
    } else {
        let name = names[from as int];
        let key = "server"@ + number::decimal(from + 1);
        let tail = server_lines(names, from + 1) + rest;
        let next = IniState {
            ini: Ini { servers: state.ini.servers.push(name), ..state.ini },
            ..state
        };
        lemma_server_key(from + 1);
        lemma_run_entry(state, key, name, tail);
        assert(server_lines(names, from) + rest =~= entry_line(key, name) + seq!['\n'] + tail);
        lemma_run_servers(next, names, from + 1, rest);
        assert(next.ini.servers + names.skip(from as int + 1) =~= state.ini.servers + names.skip(
            from as int,
        ));
    }
}

/// Reading back the file that keeps some servers and settings gives them back: the servers
/// in their order, the frequency moved into its range, and the time zone.
pub proof fn ini_read_back(names: Seq<Seq<char>>, frequency: u64, timezone: Seq<char>)
    requires
        forall|i: int| 0 <= i < names.len() ==> text::is_clean(#[trigger] names[i]),
        text::is_clean(timezone),
    ensures
        ini_of(ini_text(names, frequency as nat, timezone)) == (Ini {
            servers: names,
            frequency: Some(
                number::clamped(
                    frequency as int,
                    MIN_UPDATE_SECONDS as int,
                    MAX_UPDATE_SECONDS as int,
                ) as u64,
            ),
            timezone: Some(timezone),
        }),
{
    reveal_strlit("[servers]\n");
    reveal_strlit("[servers]");
    reveal_strlit("servers");
    reveal_strlit("\n[settings]\n");
    reveal_strlit("[settings]");
    reveal_strlit("settings");
    reveal_strlit("update_frequency_seconds = ");
    reveal_strlit("update_frequency_seconds");
    reveal_strlit("timezone = ");
    reveal_strlit("timezone");
    reveal_strlit(" = ");
    reveal_strlit("\n");
    let empty = Seq::<char>::empty();
    let digits = number::decimal(frequency as nat);
    let frequency_key = "update_frequency_seconds"@;
    let timezone_key = "timezone"@;
    let zone_part = entry_line(timezone_key, timezone) + seq!['\n'] + empty;
    let settings_part = entry_line(frequency_key, digits) + seq!['\n'] + zone_part;
    let settings_section = "[settings]"@ + seq!['\n'] + settings_part;
    let settings_text = empty + seq!['\n'] + settings_section;
    let servers_part = server_lines(names, 0) + settings_text;
    let all = "[servers]"@ + seq!['\n'] + servers_part;
    assert(ini_text(names, frequency as nat, timezone) =~= all);

    let start = IniState::start();
    let in_servers = IniState { section: "servers"@, ini: Ini::empty() };
    let with_servers = IniState {
        section: "servers"@,
        ini: Ini { servers: names, ..Ini::empty() },
    };
    let in_settings = IniState { section: "settings"@, ..with_servers };

    lemma_run_line(start, "[servers]"@, servers_part);
    text::lemma_trim_fixed("[servers]"@);
    assert("[servers]"@.subrange(1, 8) =~= "servers"@);
    assert(start.step("[servers]"@) == in_servers);

    lemma_run_servers(in_servers, names, 0, settings_text);
    assert(in_servers.ini.servers + names.skip(0) =~= names);

    lemma_run_line(with_servers, empty, settings_section);
    lemma_run_line(with_servers, "[settings]"@, settings_part);
    text::lemma_trim_fixed("[settings]"@);
    assert("[settings]"@.subrange(1, 9) =~= "settings"@);
    assert(with_servers.step("[settings]"@) == in_settings);
    assert("settings"@ != "servers"@) by {
        assert("settings"@.len() != "servers"@.len());
    }

    number::lemma_decimal(frequency as nat);
    number::decimal_read_back(frequency);
    assert(text::is_clean(digits)) by {
        assert(number::is_digit(digits[0]) && number::is_digit(digits.last()));
        text::lemma_trim_fixed(digits);
        assert forall|i: int| 0 <= i < digits.len() implies digits[i] != '\n' by {
            assert(number::is_digit(digits[i]));
        }
    }
    lemma_run_entry(in_settings, frequency_key, digits, zone_part);
    let with_frequency = IniState {
        ini: in_settings.ini.with_entry("settings"@, frequency_key, digits),
        ..in_settings
    };
    assert(timezone_key.len() != frequency_key.len());
    lemma_run_entry(with_frequency, timezone_key, timezone, empty);
}

proof fn lemma_step_wf(state: IniState, line: Seq<char>)
    requires
        state.ini.wf(),
        !line.contains('\n'),
    ensures
        state.step(line).ini.wf(),
{
    let kept = text::trim(line);
    text::trim_settles(line);
    if let Some((key, rest)) = text::split_once(kept, '=') {
        let value = text::trim(rest);
        text::trim_settles(rest);
        text::lemma_first_index_bounds(kept, '=');
        assert(!value.contains('\n')) by {
            if value.contains('\n') {
                let i = choose|i: int| 0 <= i < rest.len() && rest[i] == '\n';
                assert(kept[text::first_index(kept, '=') as int + 1 + i] == '\n');
                assert(kept.contains('\n'));
            }
        }
        let servers = state.ini.servers;
        assert forall|i: int| 0 <= i < servers.push(value).len() implies text::is_clean(
            #[trigger] servers.push(value)[i],
        ) by {
            if i < servers.len() {
                assert(servers.push(value)[i] == servers[i]);
            }
        }
    }
}

proof fn lemma_run_wf(state: IniState, lines: Seq<Seq<char>>)
    requires
        state.ini.wf(),
        forall|i: int| 0 <= i < lines.len() ==> !(#[trigger] lines[i]).contains('\n'),
    ensures
        state.run(lines).ini.wf(),
    decreases lines.len(),
{
    if lines.len() > 0 {
        lemma_step_wf(state, lines[0]);
        assert forall|i: int| 0 <= i < lines.drop_first().len() implies !(
        #[trigger] lines.drop_first()[i]).contains('\n') by {
            assert(lines.drop_first()[i] == lines[i + 1]);
        }
        lemma_run_wf(state.step(lines[0]), lines.drop_first());
    }
}

/// Whatever a file holds, what it says is clean, and its frequency lies in the range.
pub proof fn ini_values_in_range(contents: Seq<char>)
    ensures
        ini_of(contents).wf(),
{
    text::lines_hold_no_feed(contents);
    lemma_run_wf(IniState::start(), text::lines(contents));
}

proof fn lemma_run_parts(state: IniState, a: Seq<Seq<char>>, b: Seq<Seq<char>>)
    ensures
        state.run(a + b) == state.run(a).run(b),
    decreases a.len(),
{
    if a.len() == 0 {
        assert(a + b =~= b);
    } else {
        assert((a + b).drop_first() =~= a.drop_first() + b);
        lemma_run_parts(state.step(a[0]), a.drop_first(), b);
    }
}

/// A file is read line by line: what a line does depends on the lines before it, and what is
/// said then goes on with the lines behind it.
pub proof fn file_is_read_line_by_line(head: Seq<char>, line: Seq<char>, rest: Seq<char>)
    requires
        head.len() == 0 || head.last() == '\n',
        !line.contains('\n'),
    ensures
        IniState::start().run(text::lines(head + line + seq!['\n'] + rest))
            == IniState::start().run(text::lines(head)).step(line).run(text::lines(rest)),
        line.len() > 0 ==> IniState::start().run(text::lines(head + line))
            == IniState::start().run(text::lines(head)).step(line),
        IniState::start().run(text::lines(seq![])) == (IniState {
            section: seq![],
            ini: Ini { servers: seq![], frequency: None, timezone: None },
        }),
{
    let start = IniState::start();
    let tail = line + seq!['\n'] + rest;
    let at_line = start.run(text::lines(head));
    assert(head + line + seq!['\n'] + rest =~= head + tail);
    text::lines_of_two_parts(head, tail);
    lemma_run_parts(start, text::lines(head), text::lines(tail));
    text::ended_line_comes_first(line, rest);
    text::trim_ignores_return(line);
    assert(text::lines(tail).drop_first() =~= text::lines(rest));
    text::last_line_needs_no_feed(line);
    if line.len() > 0 {
        text::lines_of_two_parts(head, line);
        lemma_run_parts(start, text::lines(head), text::lines(line));
        reveal_with_fuel(IniState::run, 2);
        assert(seq![line].drop_first() =~= seq![]);
    }
}

/// A line that is blank, or whose first character but white space is `#` or `;`, says nothing
/// and leaves the section in force.
pub proof fn comments_and_blank_lines_say_nothing(
    state: IniState,
    before: Seq<char>,
    comment: Seq<char>,
)
    requires
        text::is_blank(before),
        comment.len() > 0 ==> comment[0] == '#' || comment[0] == ';',
    ensures
        state.step(before + comment) == state,
{
    if comment.len() > 0 {
        text::trim_keeps_first_ink(before, comment);
    } else {
        let empty = Seq::<char>::empty();
        text::trim_takes_white_space_off(before, empty, empty);
        assert(before + empty + empty =~= before + comment);
    }
}

/// Taking a blank line or a comment out of a file, or putting one in between any two lines,
/// changes nothing of what is read from it: neither the servers nor the frequency nor the time
/// zone.
pub proof fn comments_and_blank_lines_can_go(
    head: Seq<char>,
    before: Seq<char>,
    comment: Seq<char>,
    rest: Seq<char>,
    with: &str,
    without: &str,
    a: IniConfig,
    b: IniConfig,
)
    requires
        head.len() == 0 || head.last() == '\n',
        text::is_blank(before),
        !before.contains('\n'),
        !comment.contains('\n'),
        comment.len() > 0 ==> comment[0] == '#' || comment[0] == ';',
        with@ == head + (before + comment) + seq!['\n'] + rest,
        without@ == head + rest,
        call_ensures(parse_ini, (with,), a),
        call_ensures(parse_ini, (without,), b),
    ensures
        ini_of(with@) == ini_of(without@),
        a.servers@.len() == b.servers@.len(),
        forall|i: int| 0 <= i < a.servers@.len() ==> (#[trigger] a.servers@[i])@ == b.servers@[i]@,
        a.update_frequency_seconds == b.update_frequency_seconds,
        a.timezone is Some <==> b.timezone is Some,
        a.timezone matches Some(timezone) ==> timezone@ == b.timezone->0@,
{
    let line = before + comment;
    assert forall|i: int| 0 <= i < line.len() implies line[i] != '\n' by {
        if i < before.len() {
            assert(before.contains(line[i]));
        } else {
            assert(comment.contains(line[i]));
        }
    }
    let start = IniState::start();
    file_is_read_line_by_line(head, line, rest);
    comments_and_blank_lines_say_nothing(start.run(text::lines(head)), before, comment);
    text::lines_of_two_parts(head, rest);
    lemma_run_parts(start, text::lines(head), text::lines(rest));
    assert(a@ == b@);
    assert(a@.servers.len() == a.servers@.len() && b@.servers.len() == b.servers@.len());
    assert forall|i: int| 0 <= i < a.servers@.len() implies (#[trigger] a.servers@[i])@
        == b.servers@[i]@ by {
        assert(a@.servers[i] == a.servers@[i]@);
        assert(b@.servers[i] == b.servers@[i]@);
    }
}

/// A line in square brackets puts the section between them in force and says nothing else.
pub proof fn brackets_start_a_section(
    state: IniState,
    before: Seq<char>,
    name: Seq<char>,
    after: Seq<char>,
)
    requires
        text::is_blank(before),
        text::is_blank(after),
    ensures
        state.step(before + (seq!['['] + name + seq![']']) + after).section == name,
        state.step(before + (seq!['['] + name + seq![']']) + after).ini == state.ini,
{
    let line = seq!['['] + name + seq![']'];
    text::trim_takes_white_space_off(before, line, after);
    assert(line.subrange(1, line.len() - 1) =~= name);
}

proof fn lemma_unknown_key(ini: Ini, section: Seq<char>, key: Seq<char>, value: Seq<char>)
    requires
        key.len() == 0 || key[0] == '[',
    ensures
        ini.with_entry(section, key, value) == ini,
{
    reveal_strlit("server");
    reveal_strlit("update_frequency_seconds");
    reveal_strlit("timezone");
    if "server"@.is_prefix_of(key) {
        assert(key.subrange(0, 6)[0] == key[0]);
        assert("server"@[0] == 's');
    }
    assert("update_frequency_seconds"@[0] == 'u');
    assert("timezone"@[0] == 't');
}

/// A line without an equals sign that is no section says nothing, and neither does one that
/// starts like a section but does not end like one, nor one that starts with an equals sign.
pub proof fn other_lines_say_nothing(state: IniState, line: Seq<char>)
    requires
        ({
            let kept = text::trim(line);
            ||| !kept.contains('=') && kept.len() > 0 && !(kept[0] == '[' && kept.last() == ']')
            ||| kept.len() > 0 && kept[0] == '[' && kept.last() != ']'
            ||| kept.len() > 0 && kept[0] == '='
        }),
    ensures
        state.step(line) == state,
{
    let kept = text::trim(line);
    let empty = Seq::<char>::empty();
    if !kept.contains('=') {
        text::split_at_the_first_separator(kept, '=', seq![]);
    } else if kept[0] == '=' {
        let value = kept.drop_first();
        assert(kept =~= empty + seq!['='] + value);
        text::split_at_the_first_separator(empty, '=', value);
        assert(text::trim(empty) == empty);
        lemma_unknown_key(state.ini, state.section, empty, text::trim(value));
    } else {
        text::lemma_first_index_bounds(kept, '=');
        let k = text::first_index(kept, '=') as int;
        let key = kept.take(k);
        if k < kept.len() {
            assert(k > 0);
            assert(key[0] == '[');
            assert(empty + key =~= key);
            text::trim_keeps_first_ink(empty, key);
            lemma_unknown_key(
                state.ini,
                state.section,
                text::trim(key),
                text::trim(kept.skip(k + 1)),
            );
        }
    }
}

/// The parts of a line with an entry: white space may stand around the key and around the value.
pub open spec fn spaced_entry(
    a: Seq<char>,
    key: Seq<char>,
    b: Seq<char>,
    c: Seq<char>,
    value: Seq<char>,
    d: Seq<char>,
) -> Seq<char> {
    a + key + b + seq!['='] + c + value + d
}

/// What the parts of a line with an entry can be. The value may hold anything, equals signs too.
pub open spec fn are_entry_parts(
    a: Seq<char>,
    key: Seq<char>,
    b: Seq<char>,
    c: Seq<char>,
    value: Seq<char>,
    d: Seq<char>,
) -> bool {
    &&& text::is_blank(a) && text::is_blank(b) && text::is_blank(c) && text::is_blank(d)
    &&& is_key(key)
    &&& value.len() > 0 ==> !text::is_white_space(value[0]) && !text::is_white_space(value.last())
}

#[verifier::spinoff_prover]
proof fn lemma_spaced_entry(
    a: Seq<char>,
    key: Seq<char>,
    b: Seq<char>,
    c: Seq<char>,
    value: Seq<char>,
    d: Seq<char>,
)
    requires
        are_entry_parts(a, key, b, c, value, d),
    ensures
        classify(text::trim(spaced_entry(a, key, b, c, value, d))) == (IniLine::Entry {
            key,
            value,
        }),
{
    let line = spaced_entry(a, key, b, c, value, d);
    let empty = Seq::<char>::empty();
    let left = key + b;
    let right = if value.len() > 0 {
        c + value
    } else {
        empty
    };
    let kept = left + seq!['='] + right;
    let after = if value.len() > 0 {
        d
    } else {
        c + d
    };
    assert(text::is_blank(after)) by {
        assert forall|i: int| 0 <= i < after.len() implies text::is_white_space(
            #[trigger] after[i],
        ) by {
            if value.len() == 0 && i < c.len() {
                assert(text::is_white_space(c[i]));
            } else if value.len() == 0 {
                assert(text::is_white_space(d[i - c.len()]));
            }
        }
    }
    assert(line =~= a + kept + after);
    assert(kept[0] == key[0]);
    assert(kept.last() == if value.len() > 0 {
        value.last()
    } else {
        '='
    });
    text::trim_takes_white_space_off(a, kept, after);
    assert(!left.contains('=')) by {
        assert forall|i: int| 0 <= i < left.len() implies left[i] != '=' by {
            if i < key.len() {
                assert(key.contains(key[i]));
            } else {
                assert(text::is_white_space(b[i - key.len()]));
            }
        }
    }
    text::split_at_the_first_separator(left, '=', right);
    text::trim_takes_white_space_off(empty, key, b);
    assert(empty + key + b =~= left);
    if value.len() > 0 {
        text::trim_takes_white_space_off(c, value, empty);
        assert(c + value + empty =~= right);
    } else {
        assert(text::trim(empty) == empty);
        assert(value =~= empty);
    }
}

/// In the section `servers`, an entry whose key starts with `server` adds its value as the last
/// of the servers. Nothing else changes, whatever white space stands around key and value.
pub proof fn server_entry_adds_a_server(
    state: IniState,
    a: Seq<char>,
    suffix: Seq<char>,
    b: Seq<char>,
    c: Seq<char>,
    value: Seq<char>,
    d: Seq<char>,
)
    requires
        are_entry_parts(a, "server"@ + suffix, b, c, value, d),
        state.section == "servers"@,
    ensures
        ({
            let next = state.step(spaced_entry(a, "server"@ + suffix, b, c, value, d));
            &&& next.ini.servers == state.ini.servers.push(value)
            &&& next.ini.frequency == state.ini.frequency
            &&& next.ini.timezone == state.ini.timezone
            &&& next.section == state.section
        }),
{
    lemma_spaced_entry(a, "server"@ + suffix, b, c, value, d);
    assert(("server"@ + suffix).take("server"@.len() as int) =~= "server"@);
}

/// In the section `settings`, the entry of the time zone sets it to its value, whatever it was
/// before. Nothing else changes.
pub proof fn timezone_entry_sets_the_time_zone(
    state: IniState,
    a: Seq<char>,
    b: Seq<char>,
    c: Seq<char>,
    value: Seq<char>,
    d: Seq<char>,
)
    requires
        are_entry_parts(a, "timezone"@, b, c, value, d),
        state.section == "settings"@,
    ensures
        ({
            let next = state.step(spaced_entry(a, "timezone"@, b, c, value, d));
            &&& next.ini.servers == state.ini.servers
            &&& next.ini.frequency == state.ini.frequency
            &&& next.ini.timezone == Some(value)
            &&& next.section == state.section
        }),
{
    reveal_strlit("settings");
    reveal_strlit("servers");
    reveal_strlit("timezone");
    reveal_strlit("update_frequency_seconds");
    assert("settings"@.len() != "servers"@.len());
    assert("timezone"@.len() != "update_frequency_seconds"@.len());
    lemma_spaced_entry(a, "timezone"@, b, c, value, d);
}

/// In the section `settings`, the entry of the frequency sets it to its value where that is a
/// number: to this number from 5 to 300, to 5 below and to 300 above. A value that is no number
/// leaves it. Nothing else changes.
pub proof fn frequency_entry_sets_the_frequency(
    state: IniState,
    a: Seq<char>,
    b: Seq<char>,
    c: Seq<char>,
    value: Seq<char>,
    d: Seq<char>,
)
    requires
        are_entry_parts(a, "update_frequency_seconds"@, b, c, value, d),
        state.section == "settings"@,
    ensures
        ({
            let next = state.step(spaced_entry(a, "update_frequency_seconds"@, b, c, value, d));
            &&& next.ini.servers == state.ini.servers
            &&& next.ini.timezone == state.ini.timezone
            &&& next.section == state.section
            &&& number::parse_unsigned(value) is None ==> next.ini.frequency == state.ini.frequency
            &&& number::parse_unsigned(value) matches Some(n) ==> {
                &&& next.ini.frequency is Some
                &&& 5 <= n <= 300 ==> next.ini.frequency == Some(n)
                &&& n < 5 ==> next.ini.frequency == Some(5u64)
                &&& n > 300 ==> next.ini.frequency == Some(300u64)
            }
        }),
{
    reveal_strlit("settings");
    reveal_strlit("servers");
    assert("settings"@.len() != "servers"@.len());
    lemma_spaced_entry(a, "update_frequency_seconds"@, b, c, value, d);
}

/// Any other entry says nothing: one of another section, and one with another key.
pub proof fn other_entries_say_nothing(
    state: IniState,
    a: Seq<char>,
    key: Seq<char>,
    b: Seq<char>,
    c: Seq<char>,
    value: Seq<char>,
    d: Seq<char>,
)
    requires
        are_entry_parts(a, key, b, c, value, d),
        state.section == "servers"@ ==> key.len() < 6 || key.take(6) != "server"@,
        state.section == "settings"@ ==> key != "update_frequency_seconds"@ && key != "timezone"@,
    ensures
        state.step(spaced_entry(a, key, b, c, value, d)) == state,
{
    reveal_strlit("server");
    lemma_spaced_entry(a, key, b, c, value, d);
    if "server"@.is_prefix_of(key) {
        assert(key.take(6) =~= "server"@);
    }
}

/// What is read from a file is what its lines say: the servers in their order, the frequency and
/// the time zone.
pub proof fn reading_gives_what_the_file_says(contents: &str, config: IniConfig, i: int)
    requires
        call_ensures(parse_ini, (contents,), config),
    ensures
        ({
            let said = IniState::start().run(text::lines(contents@)).ini;
            &&& config.servers@.len() == said.servers.len()
            &&& 0 <= i < said.servers.len() ==> config.servers@[i]@ == said.servers[i]
            &&& config.update_frequency_seconds == said.frequency
            &&& config.timezone is Some <==> said.timezone is Some
            &&& config.timezone matches Some(timezone) ==> said.timezone == Some(timezone@)
            &&& said == ini_of(contents@)
        }),
{
    assert(config@.servers.len() == config.servers@.len());
    if 0 <= i < config.servers@.len() {
        assert(config@.servers[i] == config.servers@[i]@);
    }
}

#[verifier::spinoff_prover]
proof fn lemma_lines_of_servers(names: Seq<Seq<char>>, from: nat, rest: Seq<char>)
    requires
        from <= names.len(),
        forall|i: int|
            0 <= i < names.len() ==> !(#[trigger] names[i]).contains('\n') && (names[i].len() > 0
                ==> names[i].last() != '\r'),
    ensures
        text::lines(server_lines(names, from) + rest) == Seq::new(
            (names.len() - from) as nat,
            |i: int|
                "server"@ + number::decimal((from + i + 1) as nat) + " = "@ + names[from + i],
        ) + text::lines(rest),
    decreases names.len() - from,
{
    let entries = |from: nat|
        Seq::new(
            (names.len() - from) as nat,
            |i: int|
                "server"@ + number::decimal((from + i + 1) as nat) + " = "@ + names[from + i],
        );
    if from == names.len() {
        assert(server_lines(names, from) + rest =~= rest);
        assert(entries(from) + text::lines(rest) =~= text::lines(rest));
    } else {
        reveal_strlit("server");
        reveal_strlit(" = ");
        let name = names[from as int];
        let digits = number::decimal(from + 1);
        let line = "server"@ + digits + " = "@ + name;
        let tail = server_lines(names, from + 1) + rest;
        number::lemma_decimal(from + 1);
        assert forall|i: int| 0 <= i < line.len() implies line[i] != '\n' by {
            if 6 <= i < 6 + digits.len() {
                assert(number::is_digit(digits[i - 6]));
            } else if i >= 9 + digits.len() {
                assert(line[i] == name[i - 9 - digits.len()]);
                assert(name.contains(line[i]));
            }
        }
        if name.len() > 0 {
            assert(line.last() == name.last());
        } else {
            assert(line.last() == ' ');
        }
        text::line_ends_at_its_feed(line, tail);
        assert(server_lines(names, from) + rest =~= line + seq!['\n'] + tail);
        lemma_lines_of_servers(names, from + 1, rest);
        assert(entries(from) =~= seq![line] + entries(from + 1));
        assert(seq![line] + (entries(from + 1) + text::lines(rest)) =~= entries(from)
            + text::lines(rest));
    }
}

#[verifier::spinoff_prover]
proof fn lemma_lines_of_settings(frequency: nat, timezone: Seq<char>)
    requires
        !timezone.contains('\n'),
        timezone.len() > 0 ==> timezone.last() != '\r',
    ensures
        text::lines(
            "\n[settings]\n"@ + "update_frequency_seconds = "@ + number::decimal(frequency)
                + "\n"@ + "timezone = "@ + timezone + "\n"@,
        ) == seq![
            Seq::empty(),
            "[settings]"@,
            "update_frequency_seconds = "@ + number::decimal(frequency),
            "timezone = "@ + timezone,
        ],
{
    reveal_strlit("\n[settings]\n");
    reveal_strlit("[settings]");
    reveal_strlit("update_frequency_seconds = ");
    reveal_strlit("timezone = ");
    reveal_strlit("\n");
    let empty = Seq::<char>::empty();
    let digits = number::decimal(frequency);
    let frequency_line = "update_frequency_seconds = "@ + digits;
    let zone_line = "timezone = "@ + timezone;
    let zone_part = zone_line + seq!['\n'] + empty;
    let frequency_part = frequency_line + seq!['\n'] + zone_part;
    let settings_part = "[settings]"@ + seq!['\n'] + frequency_part;
    let gap_part = empty + seq!['\n'] + settings_part;
    let all = "\n[settings]\n"@ + "update_frequency_seconds = "@ + digits + "\n"@ + "timezone = "@
        + timezone + "\n"@;
    assert(all =~= gap_part);
    number::lemma_decimal(frequency);
    assert forall|i: int| 0 <= i < frequency_line.len() implies frequency_line[i] != '\n' by {
        if i >= 27 {
            assert(number::is_digit(digits[i - 27]));
        }
    }
    assert(frequency_line.last() == digits.last());
    assert(number::is_digit(digits[digits.len() - 1]));
    assert forall|i: int| 0 <= i < zone_line.len() implies zone_line[i] != '\n' by {
        if i >= 11 {
            assert(timezone.contains(timezone[i - 11]));
        }
    }
    if timezone.len() > 0 {
        assert(zone_line.last() == timezone.last());
    }
    text::line_ends_at_its_feed(empty, settings_part);
    text::line_ends_at_its_feed("[settings]"@, frequency_part);
    text::line_ends_at_its_feed(frequency_line, zone_part);
    text::line_ends_at_its_feed(zone_line, empty);
    text::last_line_needs_no_feed(empty);
    assert(text::lines(gap_part) =~= seq![empty, "[settings]"@, frequency_line, zone_line]);
}

/// The file that is saved has the section of the servers, one line for each server with its
/// number from one on and its name, in their order, an empty line, and the section of the
/// settings with the frequency in digits and the time zone.
#[verifier::spinoff_prover]
pub proof fn saved_file_line_by_line(names: Seq<Seq<char>>, frequency: nat, timezone: Seq<char>)
    requires
        forall|i: int|
            0 <= i < names.len() ==> !(#[trigger] names[i]).contains('\n') && (names[i].len() > 0
                ==> names[i].last() != '\r'),
        !timezone.contains('\n'),
        timezone.len() > 0 ==> timezone.last() != '\r',
    ensures
        text::lines(ini_text(names, frequency, timezone)) == seq!["[servers]"@] + Seq::new(
            names.len(),
            |i: int| "server"@ + number::decimal((i + 1) as nat) + " = "@ + names[i],
        ) + seq![
            Seq::empty(),
            "[settings]"@,
            "update_frequency_seconds = "@ + number::decimal(frequency),
            "timezone = "@ + timezone,
        ],
{
    reveal_strlit("[servers]\n");
    reveal_strlit("[servers]");
    let settings_text = "\n[settings]\n"@ + "update_frequency_seconds = "@ + number::decimal(
        frequency,
    ) + "\n"@ + "timezone = "@ + timezone + "\n"@;
    let servers_part = server_lines(names, 0) + settings_text;
    let all = "[servers]"@ + seq!['\n'] + servers_part;
    assert(ini_text(names, frequency, timezone) =~= all);
    lemma_lines_of_settings(frequency, timezone);
    text::line_ends_at_its_feed("[servers]"@, servers_part);
    lemma_lines_of_servers(names, 0, settings_text);
    let entries = Seq::new(
        names.len(),
        |i: int| "server"@ + number::decimal((i + 1) as nat) + " = "@ + names[i],
    );
    assert(entries =~= Seq::new(
        (names.len() - 0) as nat,
        |i: int| "server"@ + number::decimal((0 + i + 1) as nat) + " = "@ + names[0 + i],
    ));
    assert(text::lines(all) =~= seq!["[servers]"@] + entries + text::lines(settings_text));
}

/// A file is saved just where there are servers, and it holds their names in their order and the
/// settings.
pub proof fn saving_holds_names_and_settings(
    servers: &Vec<NtpServerInfo>,
    settings: &Settings,
    r: Option<String>,
)
    requires
        call_ensures(render_ini, (servers, settings), r),
    ensures
        r is Some <==> servers@.len() > 0,
        r matches Some(contents) ==> contents@ == ini_text(
            Seq::new(servers@.len(), |i: int| servers@[i].name@),
            settings.update_frequency_seconds as nat,
            settings.timezone@,
        ),
{
    assert(server::names(servers@) =~= Seq::new(servers@.len(), |i: int| servers@[i].name@));
}

} // verus!
