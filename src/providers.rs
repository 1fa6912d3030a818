//! The built-in providers' own logic: what hits they offer for a query.
use vstd::prelude::*;
use vstd::utf8::encode_utf8;
use crate::frontend::FrontendMessage;
use crate::provider::{HitAction, Provider, ProviderResult, SimpleHit, SystemCommand};
use crate::scoring::{MAX_SCORE, MIN_SCORE};
use crate::text::{chars_of, string_of};

verus! {

/// A hit with the given texts, action and pinned score.
pub open spec fn is_hit(h: SimpleHit, title: Seq<char>, subtitle: Seq<char>, action: HitAction, score: Option<u32>) -> bool {
    &&& h.spec_title() == title
    &&& h.spec_subtitle() == subtitle
    &&& h.spec_action() == action
    &&& h.spec_score() == score
}

/// Runs the query as a shell command; always offered, pinned to the bottom.
pub struct ExecProvider {
    pub subtitle: String,
}

impl ExecProvider {
    /// The single hit offered for `query`.
    pub fn hit_for(&self, query: &str) -> (r: SimpleHit)
        ensures
            is_hit(r, query@, self.subtitle@, HitAction::RunTitle, Some(MIN_SCORE)),
    {
        SimpleHit::new(query.to_owned(), self.subtitle.clone(), HitAction::RunTitle).with_score(MIN_SCORE)
    }
}

impl Provider for ExecProvider {
    fn query(&self, query: &str) -> ProviderResult {
        ProviderResult::single(self.hit_for(query))
    }
}

/// A byte that URL encoding leaves as it is: an ASCII letter or digit, or
/// one of `-`, `.`, `_`, `~`.
pub open spec fn is_unreserved(b: u8) -> bool {
    (48 <= b <= 57) || (65 <= b <= 90) || (97 <= b <= 122) || b == 45 || b == 46 || b == 95
        || b == 126
}

/// An upper-case hexadecimal digit.
pub open spec fn hex_digit(d: int) -> char {
    seq!['0', '1', '2', '3', '4', '5', '6', '7', '8', '9', 'A', 'B', 'C', 'D', 'E', 'F'][d]
}

/// The bytes, percent-encoded: each reserved byte becomes `%` and two digits.
pub open spec fn percent_encoded(bytes: Seq<u8>) -> Seq<char>
    decreases bytes.len(),
{
    if bytes.len() == 0 {
        Seq::empty()
    } else {
        let b = bytes[0];
        (if is_unreserved(b) {
            seq![b as char]
        } else {
            seq!['%', hex_digit(b as int / 16), hex_digit(b as int % 16)]
        }) + percent_encoded(bytes.drop_first())
    }
}

/// Relies on `urlencoding::encode`: it percent-encodes every UTF-8 byte of
/// the text but ASCII letters, digits and `-`, `.`, `_`, `~`, with upper-case
/// hexadecimal digits.
#[verifier::external_body]
fn url_encode(s: &str) -> (r: String)
    ensures
        r@ == percent_encoded(encode_utf8(s@)),
{
    urlencoding::encode(s).into_owned()
}

/// The pattern with each `{}` replaced by `value`.
pub open spec fn fill_placeholders(pattern: Seq<char>, value: Seq<char>) -> Seq<char>
    decreases pattern.len(),
{
    if pattern.len() == 0 {
        Seq::empty()
    } else if pattern.len() >= 2 && pattern[0] == '{' && pattern[1] == '}' {
        value + fill_placeholders(pattern.skip(2), value)
    } else {
        seq![pattern[0]] + fill_placeholders(pattern.drop_first(), value)
    }
}

/// The pattern with each `{}` replaced by `value`.
pub fn fill_url_pattern(pattern: &str, value: &str) -> (r: String)
    ensures
        r@ == fill_placeholders(pattern@, value@),
{
    let p = chars_of(pattern);
    let w = chars_of(value);
    let mut out: Vec<char> = Vec::new();
    let mut i: usize = 0;
    assert(p@.skip(0) =~= p@);
    assert(out@ + fill_placeholders(p@, w@) =~= fill_placeholders(p@, w@));
    while i < p.len()
        invariant
            i <= p@.len(),
            p@ == pattern@,
            w@ == value@,
            fill_placeholders(pattern@, value@) == out@ + fill_placeholders(p@.skip(i as int), w@),
        decreases p.len() - i,
    {
        let ghost rest = p@.skip(i as int);
        if i + 1 < p.len() && p[i] == '{' && p[i + 1] == '}' {
            let mut k: usize = 0;
            let ghost before = out@;
            while k < w.len()
                invariant
                    k <= w@.len(),
                    out@ == before + w@.take(k as int),
                decreases w.len() - k,
            {
                out.push(w[k]);
                assert(w@.take(k + 1) =~= w@.take(k as int).push(w@[k as int]));
                k = k + 1;
            }
            assert(w@.take(w@.len() as int) =~= w@);
            assert(rest.skip(2) =~= p@.skip(i + 2));
            assert(before + (w@ + fill_placeholders(rest.skip(2), w@)) =~= out@ + fill_placeholders(p@.skip(i + 2), w@));
            i = i + 2;
        } else {
            let ghost before = out@;
            out.push(p[i]);
            assert(rest.drop_first() =~= p@.skip(i + 1));
            assert(before + (seq![rest[0]] + fill_placeholders(rest.drop_first(), w@)) =~= out@ + fill_placeholders(p@.skip(i + 1), w@));
            i = i + 1;
        }
    }
    assert(p@.skip(i as int) =~= Seq::<char>::empty());
    assert(out@ + Seq::<char>::empty() =~= out@);
    string_of(out.as_slice())
}

/// Searches the web for the query; always offered, pinned to the bottom.
pub struct WebsearchProvider {
    pub url_pattern: String,
    pub subtitle: String,
}

impl WebsearchProvider {
    /// The search URL for `query`: the pattern with `{}` replaced by the
    /// URL-encoded query.
    pub fn search_url(&self, query: &str) -> (r: String)
        ensures
            r@ == fill_placeholders(self.url_pattern@, percent_encoded(encode_utf8(query@))),
    {
        let encoded = url_encode(query);
        fill_url_pattern(self.url_pattern.as_str(), encoded.as_str())
    }

    /// The single hit offered for `query`.
    pub fn hit_for(&self, query: &str) -> (r: SimpleHit)
        ensures
            r.spec_title() == query@,
            r.spec_subtitle() == self.subtitle@,
            r.spec_score() == Some(MIN_SCORE),
            r.spec_action() matches HitAction::OpenUrl(u) && u@ == fill_placeholders(
                self.url_pattern@,
                percent_encoded(encode_utf8(query@)),
            ),
    {
        let url = self.search_url(query);
        SimpleHit::new(query.to_owned(), self.subtitle.clone(), HitAction::OpenUrl(url)).with_score(
            MIN_SCORE,
        )
    }
}

impl Provider for WebsearchProvider {
    fn query(&self, query: &str) -> ProviderResult {
        ProviderResult::single(self.hit_for(query))
    }
}

/// The texts of a hit that sends a message to the front end.
#[derive(Debug, Clone)]
pub struct CommandConfig {
    pub title: String,
    pub subtitle: String,
}

/// The texts of a hit that runs a system operation, and the Linux command
/// that carries it out.
#[derive(Debug, Clone)]
pub struct ShellCommandConfig {
    pub title: String,
    pub subtitle: String,
    pub command_linux: String,
}

/// The system provider's hits.
#[derive(Debug, Clone)]
pub struct SystemConfig {
    pub exit: CommandConfig,
    pub reload: CommandConfig,
    pub lock: ShellCommandConfig,
    pub logout: ShellCommandConfig,
    pub restart: ShellCommandConfig,
    pub shutdown: ShellCommandConfig,
    pub sleep: ShellCommandConfig,
}

/// A hit that sends `message` to the front end.
pub fn get_message_hit(config: CommandConfig, message: FrontendMessage) -> (r: SimpleHit)
    ensures
        is_hit(r, config.title@, config.subtitle@, HitAction::Message(message), None),
{
    SimpleHit::new(config.title, config.subtitle, HitAction::Message(message))
}

/// The hit that carries out `command` as configured.
pub open spec fn is_system_hit(h: SimpleHit, config: ShellCommandConfig, command: SystemCommand) -> bool {
    &&& h.spec_title() == config.title@
    &&& h.spec_subtitle() == config.subtitle@
    &&& h.spec_score() is None
    &&& h.spec_action() matches HitAction::System(c, cmd) && c == command && cmd@ == config.command_linux@
}

/// A hit that carries out a system operation.
pub fn get_shell_hit(config: ShellCommandConfig, command: SystemCommand) -> (r: SimpleHit)
    ensures
        is_system_hit(r, config, command),
{
    SimpleHit::new(config.title, config.subtitle, HitAction::System(command, config.command_linux))
}

/// Offers exiting and restarting the launcher, and locking, logging out,
/// restarting, shutting down and suspending the machine, for every query.
pub struct SystemProvider {
    hits: Vec<SimpleHit>,
}

impl SystemProvider {
    pub closed spec fn spec_hits(&self) -> Seq<SimpleHit> {
        self.hits@
    }

    pub fn new(config: SystemConfig) -> (r: Self)
        ensures
            r.spec_hits().len() == 7,
            is_hit(
                r.spec_hits()[0],
                config.exit.title@,
                config.exit.subtitle@,
                HitAction::Message(FrontendMessage::Exit),
                None,
            ),
            is_hit(
                r.spec_hits()[1],
                config.reload.title@,
                config.reload.subtitle@,
                HitAction::Message(FrontendMessage::Restart),
                None,
            ),
            is_system_hit(r.spec_hits()[2], config.lock, SystemCommand::Lock),
            is_system_hit(r.spec_hits()[3], config.logout, SystemCommand::Logout),
            is_system_hit(r.spec_hits()[4], config.restart, SystemCommand::Restart),
            is_system_hit(r.spec_hits()[5], config.shutdown, SystemCommand::Shutdown),
            is_system_hit(r.spec_hits()[6], config.sleep, SystemCommand::Sleep),
    {
        let mut hits: Vec<SimpleHit> = Vec::new();
        hits.push(get_message_hit(config.exit, FrontendMessage::Exit));
        hits.push(get_message_hit(config.reload, FrontendMessage::Restart));
        hits.push(get_shell_hit(config.lock, SystemCommand::Lock));
        hits.push(get_shell_hit(config.logout, SystemCommand::Logout));
        hits.push(get_shell_hit(config.restart, SystemCommand::Restart));
        hits.push(get_shell_hit(config.shutdown, SystemCommand::Shutdown));
        hits.push(get_shell_hit(config.sleep, SystemCommand::Sleep));
        SystemProvider { hits }
    }

    /// The hits offered for every query.
    pub fn hits(&self) -> (r: &Vec<SimpleHit>)
        ensures
            r@ == self.spec_hits(),
    {
        &self.hits
    }
}

impl Provider for SystemProvider {
    fn query(&self, _query: &str) -> ProviderResult {
        ProviderResult::new(self.hits.clone())
    }
}

/// A decimal digit.
pub open spec fn digit_char(d: int) -> char {
    seq!['0', '1', '2', '3', '4', '5', '6', '7', '8', '9'][d]
}

/// The decimal digits of `n`.
pub open spec fn digits_of(n: nat) -> Seq<char>
    decreases n,
{
    if n < 10 {
        seq![digit_char(n as int)]
    } else {
        digits_of(n / 10).push(digit_char((n % 10) as int))
    }
}

/// `n` in decimal, with a leading `-` when negative.
pub open spec fn decimal_of(n: int) -> Seq<char> {
    if n < 0 {
        seq!['-'] + digits_of((-n) as nat)
    } else {
        digits_of(n as nat)
    }
}

fn digit(d: u64) -> (r: char)
    requires
        d < 10,
    ensures
        r == digit_char(d as int),
{
    if d == 0 { '0' }
    else if d == 1 { '1' }
    else if d == 2 { '2' }
    else if d == 3 { '3' }
    else if d == 4 { '4' }
    else if d == 5 { '5' }
    else if d == 6 { '6' }
    else if d == 7 { '7' }
    else if d == 8 { '8' }
    else { '9' }
}

fn push_digits(out: &mut Vec<char>, n: u64)
    ensures
        final(out)@ == old(out)@ + digits_of(n as nat),
    decreases n,
{
    if n < 10 {
        out.push(digit(n));
    } else {
        push_digits(out, n / 10);
        out.push(digit(n % 10));
    }
}

/// Appends `n` in decimal to `out`.
fn push_decimal(out: &mut Vec<char>, n: i32)
    ensures
        final(out)@ == old(out)@ + decimal_of(n as int),
{
    if n < 0 {
        out.push('-');
        let m = (0 - (n as i64)) as u64;
        push_digits(out, m);
    } else {
        push_digits(out, n as u64);
    }
}

/// The title of a process's hit: its name, a dash and its id.
pub open spec fn process_title(name: Seq<char>, pid: int) -> Seq<char> {
    name + " - "@ + decimal_of(pid)
}

/// A hit that kills the process when selected.
pub fn get_hit(name: &str, pid: i32, cmdline: &str) -> (r: SimpleHit)
    ensures
        is_hit(r, process_title(name@, pid as int), cmdline@, HitAction::KillProcess(pid), None),
{
    let mut title = chars_of(name);
    let sep = chars_of(" - ");
    let ghost start = title@;
    let mut i: usize = 0;
    while i < sep.len()
        invariant
            i <= sep@.len(),
            title@ == start + sep@.take(i as int),
        decreases sep.len() - i,
    {
        title.push(sep[i]);
        assert(sep@.take(i + 1) =~= sep@.take(i as int).push(sep@[i as int]));
        i = i + 1;
    }
    assert(sep@.take(sep@.len() as int) =~= sep@);
    push_decimal(&mut title, pid);
    assert(title@ =~= process_title(name@, pid as int));
    SimpleHit::new(string_of(title.as_slice()), cmdline.to_owned(), HitAction::KillProcess(pid))
}

/// The text up to its first space.
pub open spec fn before_space(s: Seq<char>) -> Seq<char>
    decreases s.len(),
{
    if s.len() == 0 || s[0] == ' ' {
        Seq::empty()
    } else {
        seq![s[0]] + before_space(s.drop_first())
    }
}

/// The text after its last `/`.
pub open spec fn after_last_slash(s: Seq<char>) -> Seq<char>
    decreases s.len(),
{
    if s.len() == 0 {
        Seq::empty()
    } else if s.last() == '/' {
        Seq::empty()
    } else {
        after_last_slash(s.drop_last()).push(s.last())
    }
}

/// The binary's name from a process's command line: the file name of the
/// first word of the first argument.
pub fn get_cmdline_binary(args: &[String]) -> (r: Option<String>)
    ensures
        args@.len() == 0 ==> r is None,
        args@.len() > 0 ==> (r matches Some(b) && b@ == after_last_slash(before_space(args@[0]@))),
{
    if args.len() == 0 {
        return None;
    }
    let v = chars_of(args[0].as_str());
    let mut end: usize = 0;
    assert(v@.skip(0) =~= v@);
    assert(v@.take(0) + before_space(v@) =~= before_space(v@));
    while end < v.len() && v[end] != ' '
        invariant
            end <= v@.len(),
            before_space(v@) == v@.take(end as int) + before_space(v@.skip(end as int)),
        decreases v.len() - end,
    {
        assert(v@.skip(end as int).drop_first() =~= v@.skip(end + 1));
        assert(v@.take(end + 1) =~= v@.take(end as int).push(v@[end as int]));
        assert(v@.take(end as int) + (seq![v@[end as int]] + before_space(v@.skip(end + 1)))
            =~= v@.take(end + 1) + before_space(v@.skip(end + 1)));
        end = end + 1;
    }
    assert(before_space(v@.skip(end as int)) =~= Seq::<char>::empty());
    assert(v@.take(end as int) + Seq::<char>::empty() =~= v@.take(end as int));
    let ghost word = v@.take(end as int);
    let mut start: usize = end;
    while start > 0 && v[start - 1] != '/'
        invariant
            start <= end <= v@.len(),
            word == v@.take(end as int),
            after_last_slash(word) == after_last_slash(v@.take(start as int)) + v@.subrange(
                start as int,
                end as int,
            ),
        decreases start,
    {
        assert(v@.take(start as int).drop_last() =~= v@.take(start - 1));
        assert(v@.subrange(start - 1, end as int) =~= seq![v@[start - 1]] + v@.subrange(
            start as int,
            end as int,
        ));
        assert(after_last_slash(v@.take(start as int)) =~= after_last_slash(v@.take(start - 1)).push(
            v@[start - 1],
        ));
        start = start - 1;
    }
    assert(after_last_slash(v@.take(start as int)) =~= Seq::<char>::empty());
    let mut out: Vec<char> = Vec::new();
    let mut i: usize = start;
    while i < end
        invariant
            start <= i <= end,
            end <= v@.len(),
            out@ == v@.subrange(start as int, i as int),
        decreases end - i,
    {
        out.push(v[i]);
        assert(out@ =~= v@.subrange(start as int, i + 1));
        i = i + 1;
    }
    assert(Seq::<char>::empty() + v@.subrange(start as int, end as int) =~= out@);
    Some(string_of(out.as_slice()))
}

/// Whether the text is exactly `true`.
fn is_true(s: &str) -> (r: bool)
    ensures
        r == (s@ == "true"@),
{
    let v = chars_of(s);
    let t = chars_of("true");
    if v.len() != t.len() {
        return false;
    }
    let mut i: usize = 0;
    while i < v.len()
        invariant
            v@.len() == t@.len(),
            v@ == s@,
            t@ == "true"@,
            i <= v@.len(),
            forall|j: int| 0 <= j < i ==> v@[j] == t@[j],
        decreases v.len() - i,
    {
        if v[i] != t[i] {
            return false;
        }
        i = i + 1;
    }
    assert(v@ =~= t@);
    true
}

/// The hit of a shown desktop entry: titled by its name, else its file name;
/// launching the entry.
pub open spec fn is_entry_hit(h: SimpleHit, filename: Seq<char>, path: Seq<char>, name: Option<&str>) -> bool {
    &&& h.spec_title() == match name {
        Some(n) => n@,
        None => filename,
    }
    &&& h.spec_subtitle() == path
    &&& h.spec_score() is None
    &&& h.spec_action() matches HitAction::Launch(f) && f@ == filename
}

/// The hit for a desktop entry, given its file name and path and the values
/// of its `Name` and `NoDisplay` keys; `None` for a hidden entry.
pub fn desktop_entry_hit(filename: &str, path: &str, name: Option<&str>, no_display: Option<&str>) -> (r: Option<SimpleHit>)
    ensures
        (no_display matches Some(d) && d@ == "true"@) ==> r is None,
        !(no_display matches Some(d) && d@ == "true"@) ==> (r matches Some(h) && is_entry_hit(
            h,
            filename@,
            path@,
            name,
        )),
{
    match no_display {
        Some(d) => {
            if is_true(d) {
                return None;
            }
        },
        None => {},
    }
    let title = match name {
        Some(n) => n.to_owned(),
        None => filename.to_owned(),
    };
    Some(SimpleHit::new(title, path.to_owned(), HitAction::Launch(filename.to_owned())))
}

/// Whether the text is `e`, `pi` or `i`: constants that the calculator would
/// echo back.
pub open spec fn is_bare_constant(s: Seq<char>) -> bool {
    s == seq!['e'] || s == seq!['p', 'i'] || s == seq!['i']
}

/// The calculator's answer, given the trimmed query and what evaluating it
/// gave: nothing when it did not evaluate, when the result is the query
/// itself, or when the query is a bare constant; else one hit pinned to the
/// top, which copies the result.
pub fn calculator_result(query: &str, result: Option<String>, subtitle: &str) -> (r: ProviderResult)
    ensures
        (result is None || (result matches Some(v) && v@ == query@) || is_bare_constant(query@))
            ==> r.hits@.len() == 0,
        !(result is None || (result matches Some(v) && v@ == query@) || is_bare_constant(query@))
            ==> (r.hits@.len() == 1 && is_hit(
            r.hits@[0],
            result->Some_0@,
            subtitle@,
            HitAction::CopyTitle,
            Some(MAX_SCORE),
        )),
{
    let value = match result {
        Some(v) => v,
        None => return ProviderResult::empty(),
    };
    let q = chars_of(query);
    let w = chars_of(value.as_str());
    let mut same = q.len() == w.len();
    let mut i: usize = 0;
    while same && i < q.len()
        invariant
            same ==> q@.len() == w@.len(),
            i <= q@.len(),
            same ==> forall|j: int| 0 <= j < i ==> q@[j] == w@[j],
            !same ==> q@ != w@,
        decreases q.len() - i,
    {
        if q[i] != w[i] {
            same = false;
        }
        i = i + 1;
    }
    if same {
        assert(q@ =~= w@);
        return ProviderResult::empty();
    }
    let constant = (q.len() == 1 && (q[0] == 'e' || q[0] == 'i')) || (q.len() == 2 && q[0] == 'p'
        && q[1] == 'i');
    if constant {
        assert(is_bare_constant(query@)) by {
            if q@.len() == 1 {
                if q@[0] == 'e' {
                    assert(q@ =~= seq!['e']);
                } else {
                    assert(q@ =~= seq!['i']);
                }
            } else {
                assert(q@ =~= seq!['p', 'i']);
            }
        }
        return ProviderResult::empty();
    }
    assert(!is_bare_constant(query@)) by {
        if q@ == seq!['e'] || q@ == seq!['i'] {
            assert(q@.len() == 1);
        }
        if q@ == seq!['p', 'i'] {
            assert(q@.len() == 2);
        }
    }
    let hit = SimpleHit::new(value, subtitle.to_owned(), HitAction::CopyTitle).with_score(MAX_SCORE);
    ProviderResult::single(hit)
}

/// The text of an optional file name.
pub open spec fn name_view(n: Option<String>) -> Option<Seq<char>> {
    match n {
        Some(s) => Some(s@),
        None => None,
    }
}

/// Whether the entry at `i` is the first with its file name.
pub open spec fn is_first_of_name(names: Seq<Option<String>>, i: int) -> bool {
    forall|j: int| 0 <= j < i ==> name_view(#[trigger] names[j]) != name_view(names[i])
}

fn same_name(a: &Option<String>, b: &Option<String>) -> (r: bool)
    ensures
        r == (name_view(*a) == name_view(*b)),
{
    match (a, b) {
        (Some(x), Some(y)) => x.eq(y),
        (None, None) => true,
        _ => false,
    }
}

/// For each program path, given by its file name, whether it is the first
/// with that name: later paths with the same name are skipped.
pub fn first_of_each_name(names: &Vec<Option<String>>) -> (r: Vec<bool>)
    ensures
        r@.len() == names@.len(),
        forall|i: int| 0 <= i < names@.len() ==> #[trigger] r@[i] == is_first_of_name(names@, i),
{
    let mut r: Vec<bool> = Vec::new();
    let mut i: usize = 0;
    while i < names.len()
        invariant
            i <= names@.len(),
            r@.len() == i,
            forall|k: int| 0 <= k < i ==> #[trigger] r@[k] == is_first_of_name(names@, k),
        decreases names.len() - i,
    {
        let mut j: usize = 0;
        let mut first = true;
        while j < i
            invariant
                j <= i,
                i < names@.len(),
                first == forall|t: int| 0 <= t < j ==> name_view(#[trigger] names@[t]) != name_view(names@[i as int]),
            decreases i - j,
        {
            if same_name(&names[j], &names[i]) {
                first = false;
            }
            j = j + 1;
        }
        r.push(first);
        i = i + 1;
    }
    r
}

} // verus!
