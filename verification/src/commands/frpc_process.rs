//! The temporary frpc process: its configuration file and what it prints.
use crate::text::{
    begins_with, contains_char, cut, decimal, first_chars, has_text, join, join_path, joined, just,
    lemma_split_by_run, occurs_at, path_join, push_decimal, replace_text, replaced, split_by, split_on,
    views,
};
use std::collections::VecDeque;
use vstd::prelude::*;
use vstd::string::*;

verus! {

// ----- the configuration file -----

/// The characters that have a meaning in the configuration file.
pub open spec fn is_ini_mark(c: char) -> bool {
    c == '\n' || c == '\r' || c == '[' || c == ']' || c == '=' || c == '\0'
}

/// `s` holds no character that has a meaning in the configuration file.
pub open spec fn is_ini_value(s: Seq<char>) -> bool {
    forall|i: int| 0 <= i < s.len() ==> !is_ini_mark(#[trigger] s[i])
}

/// The complaint about a field with a forbidden character.
pub open spec fn ini_complaint(field: Seq<char>) -> Seq<char> {
    "字段 "@ + field + " 包含非法字符"@
}

/// Refuses a value that holds a character with a meaning in the configuration file.
pub fn validate_ini_value(value: &str, field_name: &str) -> (res: Result<(), String>)
    ensures
        match res {
            Ok(_) => is_ini_value(value@),
            Err(e) => !is_ini_value(value@) && e@ == ini_complaint(field_name@),
        },
{
    if contains_char(value, '\n') || contains_char(value, '\r') || contains_char(value, '[')
        || contains_char(value, ']') || contains_char(value, '=') || contains_char(value, '\0') {
        proof {
            let c = if value@.contains('\n') {
                '\n'
            } else if value@.contains('\r') {
                '\r'
            } else if value@.contains('[') {
                '['
            } else if value@.contains(']') {
                ']'
            } else if value@.contains('=') {
                '='
            } else {
                '\0'
            };
            let i = choose|i: int| 0 <= i < value@.len() && value@[i] == c;
            assert(is_ini_mark(value@[i]));
        }
        return Err("字段 ".to_owned().concat(field_name).concat(" 包含非法字符"));
    }
    Ok(())
}

/// What the configuration of a temporary tunnel is made of.
#[derive(Debug)]
pub struct FrpcSettings {
    /// The address of the node.
    pub node_ip: String,
    /// The port of the node that frpc connects to.
    pub server_port: u16,
    /// The token of the user.
    pub user_token: String,
    /// The token of the node.
    pub node_token: String,
    /// The port of the local speed server.
    pub local_port: u16,
    /// The port of the node that leads to the local one.
    pub remote_port: u16,
    /// The name of the tunnel.
    pub tunnel_name: String,
}

/// The model of [`FrpcSettings`].
pub struct FrpcSettingsView {
    pub node_ip: Seq<char>,
    pub server_port: u16,
    pub user_token: Seq<char>,
    pub node_token: Seq<char>,
    pub local_port: u16,
    pub remote_port: u16,
    pub tunnel_name: Seq<char>,
}

impl View for FrpcSettings {
    type V = FrpcSettingsView;

    open spec fn view(&self) -> FrpcSettingsView {
        FrpcSettingsView {
            node_ip: self.node_ip@,
            server_port: self.server_port,
            user_token: self.user_token@,
            node_token: self.node_token@,
            local_port: self.local_port,
            remote_port: self.remote_port,
            tunnel_name: self.tunnel_name@,
        }
    }
}

/// The first field with a forbidden character, in the order in which they are looked at.
pub open spec fn bad_field(
    node_ip: Seq<char>,
    user_token: Seq<char>,
    node_token: Seq<char>,
    tunnel_name: Seq<char>,
) -> Option<Seq<char>> {
    if !is_ini_value(node_ip) {
        Some("server_addr"@)
    } else if !is_ini_value(user_token) {
        Some("user"@)
    } else if !is_ini_value(node_token) {
        Some("token"@)
    } else if !is_ini_value(tunnel_name) {
        Some("tunnel_name"@)
    } else {
        None
    }
}

/// The lines of the configuration file.
pub open spec fn config_lines(
    node_ip: Seq<char>,
    server_port: u16,
    user_token: Seq<char>,
    node_token: Seq<char>,
    local_port: u16,
    remote_port: u16,
    tunnel_name: Seq<char>,
) -> Seq<Seq<char>> {
    seq![
        "[common]"@,
        "server_addr = "@ + node_ip,
        "server_port = "@ + decimal(server_port as nat),
        "user = "@ + user_token,
        "token = "@ + node_token,
        "log_level = info"@,
        "tls_enable = false"@,
        "tcp_mux = true"@,
        "pool_count = 5"@,
        ""@,
        "["@ + tunnel_name + "]"@,
        "type = tcp"@,
        "local_ip = 127.0.0.1"@,
        "local_port = "@ + decimal(local_port as nat),
        "remote_port = "@ + decimal(remote_port as nat),
    ]
}

/// Lines one after the other, each with a line feed behind it.
pub open spec fn as_lines(lines: Seq<Seq<char>>) -> Seq<char>
    decreases lines.len(),
{
    if lines.len() == 0 {
        Seq::empty()
    } else {
        as_lines(lines.drop_last()) + lines.last().push('\n')
    }
}

/// Puts a line made of two parts behind the lines that are there.
fn push_line(out: &mut String, label: &str, value: &str, Ghost(lines): Ghost<Seq<Seq<char>>>)
    requires
        old(out)@ == as_lines(lines),
    ensures
        final(out)@ == as_lines(lines.push(label@ + value@)),
{
    out.append(label);
    out.append(value);
    out.push('\n');
    assert(lines.push(label@ + value@).drop_last() =~= lines);
    assert(out@ =~= as_lines(lines) + (label@ + value@).push('\n'));
}

/// The text of the configuration file. A value that could add a line or a section to it is
/// refused.
pub fn build_frpc_config(
    node_ip: &str,
    server_port: u16,
    user_token: &str,
    node_token: &str,
    local_port: u16,
    remote_port: u16,
    tunnel_name: &str,
) -> (res: Result<String, String>)
    ensures
        match res {
            Ok(text) => {
                &&& bad_field(node_ip@, user_token@, node_token@, tunnel_name@) is None
                &&& text@ == as_lines(
                    config_lines(
                        node_ip@,
                        server_port,
                        user_token@,
                        node_token@,
                        local_port,
                        remote_port,
                        tunnel_name@,
                    ),
                )
            },
            Err(e) => bad_field(node_ip@, user_token@, node_token@, tunnel_name@) matches Some(f)
                && e@ == ini_complaint(f),
        },
{
    if let Err(e) = validate_ini_value(node_ip, "server_addr") {
        return Err(e);
    }
    if let Err(e) = validate_ini_value(user_token, "user") {
        return Err(e);
    }
    if let Err(e) = validate_ini_value(node_token, "token") {
        return Err(e);
    }
    if let Err(e) = validate_ini_value(tunnel_name, "tunnel_name") {
        return Err(e);
    }
    let server = crate::text::decimal_text(server_port as u64);
    let local = crate::text::decimal_text(local_port as u64);
    let remote = crate::text::decimal_text(remote_port as u64);
    let section = tunnel_name.to_owned().concat("]");
    let ghost all = config_lines(
        node_ip@,
        server_port,
        user_token@,
        node_token@,
        local_port,
        remote_port,
        tunnel_name@,
    );
    let mut out = String::new();
    assert(""@ =~= Seq::<char>::empty()) by {
        reveal_strlit("");
    }
    let ghost mut done = Seq::<Seq<char>>::empty();
    push_line(&mut out, "[common]", "", Ghost(done));
    proof {
        assert("[common]"@ + ""@ =~= "[common]"@);
        done = done.push(all[0]);
    }
    push_line(&mut out, "server_addr = ", node_ip, Ghost(done));
    proof {
        done = done.push(all[1]);
    }
    push_line(&mut out, "server_port = ", server.as_str(), Ghost(done));
    proof {
        done = done.push(all[2]);
    }
    push_line(&mut out, "user = ", user_token, Ghost(done));
    proof {
        done = done.push(all[3]);
    }
    push_line(&mut out, "token = ", node_token, Ghost(done));
    proof {
        done = done.push(all[4]);
    }
    push_line(&mut out, "log_level = info", "", Ghost(done));
    proof {
        assert("log_level = info"@ + ""@ =~= "log_level = info"@);
        done = done.push(all[5]);
    }
    push_line(&mut out, "tls_enable = false", "", Ghost(done));
    proof {
        assert("tls_enable = false"@ + ""@ =~= "tls_enable = false"@);
        done = done.push(all[6]);
    }
    push_line(&mut out, "tcp_mux = true", "", Ghost(done));
    proof {
        assert("tcp_mux = true"@ + ""@ =~= "tcp_mux = true"@);
        done = done.push(all[7]);
    }
    push_line(&mut out, "pool_count = 5", "", Ghost(done));
    proof {
        assert("pool_count = 5"@ + ""@ =~= "pool_count = 5"@);
        done = done.push(all[8]);
    }
    push_line(&mut out, "", "", Ghost(done));
    proof {
        assert(""@ + ""@ =~= ""@);
        done = done.push(all[9]);
    }
    push_line(&mut out, "[", section.as_str(), Ghost(done));
    proof {
        assert("["@ + (tunnel_name@ + "]"@) =~= "["@ + tunnel_name@ + "]"@);
        done = done.push(all[10]);
    }
    push_line(&mut out, "type = tcp", "", Ghost(done));
    proof {
        assert("type = tcp"@ + ""@ =~= "type = tcp"@);
        done = done.push(all[11]);
    }
    push_line(&mut out, "local_ip = 127.0.0.1", "", Ghost(done));
    proof {
        assert("local_ip = 127.0.0.1"@ + ""@ =~= "local_ip = 127.0.0.1"@);
        done = done.push(all[12]);
    }
    push_line(&mut out, "local_port = ", local.as_str(), Ghost(done));
    proof {
        done = done.push(all[13]);
    }
    push_line(&mut out, "remote_port = ", remote.as_str(), Ghost(done));
    assert(done.push(all[14]) =~= all);
    Ok(out)
}

/// The lines of the configuration file for these settings.
pub open spec fn settings_lines(s: FrpcSettingsView) -> Seq<Seq<char>> {
    config_lines(
        s.node_ip,
        s.server_port,
        s.user_token,
        s.node_token,
        s.local_port,
        s.remote_port,
        s.tunnel_name,
    )
}

impl FrpcSettings {
    /// The text of the configuration file for these settings.
    pub fn config(&self) -> (res: Result<String, String>)
        ensures
            match res {
                Ok(text) => {
                    &&& bad_field(
                        self@.node_ip,
                        self@.user_token,
                        self@.node_token,
                        self@.tunnel_name,
                    ) is None
                    &&& text@ == as_lines(settings_lines(self@))
                },
                Err(e) => bad_field(
                    self@.node_ip,
                    self@.user_token,
                    self@.node_token,
                    self@.tunnel_name,
                ) matches Some(f) && e@ == ini_complaint(f),
            },
    {
        build_frpc_config(
            self.node_ip.as_str(),
            self.server_port,
            self.user_token.as_str(),
            self.node_token.as_str(),
            self.local_port,
            self.remote_port,
            self.tunnel_name.as_str(),
        )
    }

    /// What must not show up in what the process prints: both tokens.
    pub fn secrets(&self) -> (res: Vec<String>)
        ensures
            views(res@) == seq![self@.user_token, self@.node_token],
    {
        let mut out: Vec<String> = Vec::new();
        out.push(self.user_token.as_str().to_owned());
        out.push(self.node_token.as_str().to_owned());
        assert(views(out@) =~= seq![self@.user_token, self@.node_token]);
        out
    }
}

/// Lines without a line feed in them can be read back from the text.
proof fn lemma_lines_read_back(lines: Seq<Seq<char>>)
    requires
        forall|i: int| 0 <= i < lines.len() ==> !(#[trigger] lines[i]).contains('\n'),
    ensures
        split_on(as_lines(lines), '\n') == lines.push(Seq::<char>::empty()),
    decreases lines.len(),
{
    let sep = just('\n');
    let none = Seq::<char>::empty();
    if lines.len() == 0 {
        assert(split_by(none, sep) =~= seq![none]);
        assert(lines.push(none) =~= seq![none]);
    } else {
        let rest = lines.drop_last();
        let last = lines.last();
        assert forall|i: int| 0 <= i < rest.len() implies !(#[trigger] rest[i]).contains('\n') by {
            assert(rest[i] == lines[i]);
        }
        lemma_lines_read_back(rest);
        assert(!lines[lines.len() - 1].contains('\n'));
        assert forall|i: int| 0 <= i < last.len() implies !sep(#[trigger] last[i]) by {
            assert(last.contains(last[i]));
        }
        lemma_split_by_run(as_lines(rest), last, sep);
        assert(none + last =~= last);
        assert(rest.push(none).drop_last() =~= rest);
        let text = as_lines(lines);
        assert(text.drop_last() =~= as_lines(rest) + last);
        assert(text.last() == '\n');
        assert(rest.push(last) =~= lines);
    }
}

/// A value without forbidden characters, behind a label without a line feed, has no line feed.
proof fn lemma_no_feed(label: Seq<char>, value: Seq<char>)
    requires
        !label.contains('\n'),
        is_ini_value(value),
    ensures
        !(label + value).contains('\n'),
{
    if (label + value).contains('\n') {
        let i = choose|i: int| 0 <= i < (label + value).len() && (label + value)[i] == '\n';
        if i < label.len() {
            assert(label[i] == '\n');
        } else {
            assert(value[i - label.len()] == '\n');
            assert(is_ini_mark(value[i - label.len()]));
        }
    }
}

/// A number is a value without forbidden characters.
proof fn lemma_decimal_is_value(n: nat)
    ensures
        is_ini_value(decimal(n)),
{
    crate::text::law_decimal_denotes(n);
    assert forall|i: int| 0 <= i < decimal(n).len() implies !is_ini_mark(#[trigger] decimal(n)[i]) by {
        assert(crate::text::is_digit(decimal(n)[i]));
    }
}

/// No value can add a line to the configuration file: read line by line, a text that was built
/// holds the expected lines and nothing else.
pub proof fn law_config_has_only_its_lines(
    node_ip: Seq<char>,
    server_port: u16,
    user_token: Seq<char>,
    node_token: Seq<char>,
    local_port: u16,
    remote_port: u16,
    tunnel_name: Seq<char>,
)
    requires
        bad_field(node_ip, user_token, node_token, tunnel_name) is None,
    ensures
        ({
            let lines = config_lines(
                node_ip,
                server_port,
                user_token,
                node_token,
                local_port,
                remote_port,
                tunnel_name,
            );
            split_on(as_lines(lines), '\n') == lines.push(Seq::<char>::empty())
        }),
{
    let lines = config_lines(
        node_ip,
        server_port,
        user_token,
        node_token,
        local_port,
        remote_port,
        tunnel_name,
    );
    reveal_strlit("[common]");
    reveal_strlit("server_addr = ");
    reveal_strlit("server_port = ");
    reveal_strlit("user = ");
    reveal_strlit("token = ");
    reveal_strlit("log_level = info");
    reveal_strlit("tls_enable = false");
    reveal_strlit("tcp_mux = true");
    reveal_strlit("pool_count = 5");
    reveal_strlit("");
    reveal_strlit("[");
    reveal_strlit("]");
    reveal_strlit("type = tcp");
    reveal_strlit("local_ip = 127.0.0.1");
    reveal_strlit("local_port = ");
    reveal_strlit("remote_port = ");
    lemma_decimal_is_value(server_port as nat);
    lemma_decimal_is_value(local_port as nat);
    lemma_decimal_is_value(remote_port as nat);
    lemma_no_feed("server_addr = "@, node_ip);
    lemma_no_feed("server_port = "@, decimal(server_port as nat));
    lemma_no_feed("user = "@, user_token);
    lemma_no_feed("token = "@, node_token);
    lemma_no_feed("["@, tunnel_name);
    lemma_no_feed("local_port = "@, decimal(local_port as nat));
    lemma_no_feed("remote_port = "@, decimal(remote_port as nat));
    let section = "["@ + tunnel_name + "]"@;
    if section.contains('\n') {
        let i = choose|i: int| 0 <= i < section.len() && section[i] == '\n';
        if i < section.len() - 1 {
            assert(("["@ + tunnel_name)[i] == '\n');
        }
    }
    assert forall|i: int| 0 <= i < lines.len() implies !(#[trigger] lines[i]).contains('\n') by {}
    lemma_lines_read_back(lines);
}

/// The path of the configuration file of process `pid` below the data directory.
pub fn config_file(data_dir: &str, pid: u32) -> (res: String)
    ensures
        res@ == path_join(
            path_join(data_dir@, "e2e"@),
            "e2e_frpc_"@ + decimal(pid as nat) + ".ini"@,
        ),
{
    let dir = join_path(data_dir, "e2e");
    let mut name = "e2e_frpc_".to_owned();
    push_decimal(&mut name, pid as u64);
    name.append(".ini");
    join_path(dir.as_str(), name.as_str())
}

// ----- what the process prints -----

/// How many characters of a line are kept.
pub const MAX_LINE_CHARS: usize = 500;

/// How many lines are kept.
pub const MAX_LOG_LINES: usize = 30;

/// `line` with the secrets taken out one after the other.
pub open spec fn redacted(line: Seq<char>, secrets: Seq<Seq<char>>) -> Seq<char>
    decreases secrets.len(),
{
    if secrets.len() == 0 {
        line
    } else {
        let before = redacted(line, secrets.drop_last());
        if secrets.last().len() == 0 {
            before
        } else {
            replaced(before, secrets.last(), "[已脱敏]"@)
        }
    }
}

/// `line` with the secrets taken out one after the other.
pub fn redact(line: &str, secrets: &Vec<String>) -> (res: String)
    ensures
        res@ == redacted(line@, views(secrets@)),
{
    let mut out = line.to_owned();
    let mut i: usize = 0;
    assert(views(secrets@).take(0) =~= Seq::<Seq<char>>::empty());
    while i < secrets.len()
        invariant
            i <= secrets@.len(),
            out@ == redacted(line@, views(secrets@).take(i as int)),
        decreases secrets@.len() - i,
    {
        assert(views(secrets@).take(i + 1).drop_last() =~= views(secrets@).take(i as int));
        assert(views(secrets@).take(i + 1).last() == secrets@[i as int]@);
        if !secrets[i].as_str().is_empty() {
            out = replace_text(out.as_str(), secrets[i].as_str(), "[已脱敏]");
        }
        i = i + 1;
    }
    assert(views(secrets@).take(i as int) =~= views(secrets@));
    out
}

/// `q` agrees with `by` wherever they cover the same place, when `q` begins `d` places behind the
/// beginning of `by`.
pub open spec fn agrees(q: Seq<char>, by: Seq<char>, d: int) -> bool {
    forall|k: int| 0 <= k < q.len() && 0 <= d + k < by.len() ==> #[trigger] q[k] == by[d + k]
}

/// No text can hold `q` and `by` with a place in common.
pub open spec fn never_touch(q: Seq<char>, by: Seq<char>) -> bool {
    forall|d: int| -q.len() < d < by.len() ==> !#[trigger] agrees(q, by, d)
}

/// The end of a text that cannot touch what was put in, where a replacement begins with it, begins
/// what was there before as well.
proof fn lemma_replaced_prefix(s: Seq<char>, pat: Seq<char>, by: Seq<char>, q: Seq<char>, j: int)
    requires
        by.len() > 0,
        q.len() > 0,
        never_touch(q, by),
        0 <= j <= q.len(),
        begins_with(replaced(s, pat, by), q.skip(j)),
    ensures
        begins_with(s, q.skip(j)),
    decreases s.len(),
{
    let r = replaced(s, pat, by);
    let w = q.skip(j);
    if w.len() == 0 {
        assert(s.subrange(0, 0) =~= w);
    } else if pat.len() == 0 || s.len() < pat.len() {
    } else if begins_with(s, pat) {
        assert(agrees(q, by, -j)) by {
            assert forall|k: int| 0 <= k < q.len() && 0 <= -j + k < by.len() implies #[trigger] q[k]
                == by[-j + k] by {
                assert(r.subrange(0, w.len() as int)[k - j] == w[k - j]);
                assert(r[k - j] == by[k - j]);
            }
        }
    } else {
        let rest = replaced(s.skip(1), pat, by);
        let tail = q.skip(j + 1);
        assert(r.subrange(0, w.len() as int)[0] == w[0]);
        assert(r[0] == s[0]);
        assert(rest.subrange(0, tail.len() as int) =~= tail) by {
            assert forall|k: int| 0 <= k < tail.len() implies rest[k] == tail[k] by {
                assert(r.subrange(0, w.len() as int)[k + 1] == w[k + 1]);
                assert(r[k + 1] == rest[k]);
            }
        }
        lemma_replaced_prefix(s.skip(1), pat, by, q, j + 1);
        assert forall|k: int| 0 <= k < w.len() implies s[k] == w[k] by {
            if k > 0 {
                assert(s.skip(1).subrange(0, tail.len() as int)[k - 1] == tail[k - 1]);
                assert(s.skip(1)[k - 1] == s[k]);
            }
        }
        assert(s.subrange(0, w.len() as int) =~= w);
    }
}

/// A replacement brings no text in that cannot touch what was put in, and leaves nothing of the text
/// that it takes out where that is such a text.
proof fn lemma_replaced_keeps_out(
    s: Seq<char>,
    pat: Seq<char>,
    by: Seq<char>,
    q: Seq<char>,
    at: int,
)
    requires
        pat.len() > 0,
        by.len() > 0,
        q.len() > 0,
        never_touch(q, by),
        occurs_at(replaced(s, pat, by), q, at),
    ensures
        q != pat,
        has_text(s, q),
    decreases s.len(),
{
    let r = replaced(s, pat, by);
    if s.len() < pat.len() {
        assert(occurs_at(s, q, at));
        if q == pat {
            assert(false);
        }
    } else if begins_with(s, pat) {
        let m = pat.len() as int;
        let rest = replaced(s.skip(m), pat, by);
        if at < by.len() {
            assert(agrees(q, by, at)) by {
                assert forall|k: int| 0 <= k < q.len() && 0 <= at + k < by.len() implies #[trigger] q[k]
                    == by[at + k] by {
                    assert(r.subrange(at, at + q.len())[k] == q[k]);
                    assert(r[at + k] == by[at + k]);
                }
            }
            assert(false);
        } else {
            let k = at - by.len();
            assert(rest.subrange(k, k + q.len()) =~= q) by {
                assert forall|i: int| 0 <= i < q.len() implies rest[k + i] == q[i] by {
                    assert(r.subrange(at, at + q.len())[i] == q[i]);
                    assert(r[at + i] == rest[k + i]);
                }
            }
            lemma_replaced_keeps_out(s.skip(m), pat, by, q, k);
            lemma_has_text_in_skip(s, q, m);
        }
    } else {
        let rest = replaced(s.skip(1), pat, by);
        if at == 0 {
            assert(q.skip(0) =~= q);
            lemma_replaced_prefix(s, pat, by, q, 0);
            assert(occurs_at(s, q, 0));
        } else {
            let k = at - 1;
            assert(rest.subrange(k, k + q.len()) =~= q) by {
                assert forall|i: int| 0 <= i < q.len() implies rest[k + i] == q[i] by {
                    assert(r.subrange(at, at + q.len())[i] == q[i]);
                    assert(r[at + i] == rest[k + i]);
                }
            }
            lemma_replaced_keeps_out(s.skip(1), pat, by, q, k);
            lemma_has_text_in_skip(s, q, 1);
        }
    }
}

/// What stands in a rest of `s` stands in `s`.
proof fn lemma_has_text_in_skip(s: Seq<char>, q: Seq<char>, m: int)
    requires
        0 <= m <= s.len(),
        has_text(s.skip(m), q),
    ensures
        has_text(s, q),
{
    let i = choose|i: int| occurs_at(s.skip(m), q, i);
    assert(s.subrange(i + m, i + m + q.len()) =~= s.skip(m).subrange(i, i + q.len()));
    assert(occurs_at(s, q, i + m));
}

/// No secret survives redaction, as long as it cannot touch what is put in its place, nor does it
/// when the line is cut afterwards.
pub proof fn law_redaction_removes_secrets(
    line: Seq<char>,
    secrets: Seq<Seq<char>>,
    k: int,
    limit: nat,
)
    requires
        0 <= k < secrets.len(),
        secrets[k].len() > 0,
        never_touch(secrets[k], "[已脱敏]"@),
    ensures
        !has_text(redacted(line, secrets), secrets[k]),
        !has_text(first_chars(redacted(line, secrets), limit), secrets[k]),
    decreases secrets.len(),
{
    reveal_strlit("[已脱敏]");
    let q = secrets[k];
    let marker = "[已脱敏]"@;
    let out = redacted(line, secrets);
    let before = redacted(line, secrets.drop_last());
    if k < secrets.len() - 1 {
        law_redaction_removes_secrets(line, secrets.drop_last(), k, limit);
    }
    if has_text(out, q) {
        let at = choose|i: int| occurs_at(out, q, i);
        if secrets.last().len() > 0 {
            lemma_replaced_keeps_out(before, secrets.last(), marker, q, at);
        }
        assert(false);
    }
    let shown = first_chars(out, limit);
    if has_text(shown, q) {
        let at = choose|i: int| occurs_at(shown, q, i);
        assert(out.subrange(at, at + q.len()) =~= shown.subrange(at, at + q.len()));
        assert(occurs_at(out, q, at));
    }
}

/// The last lines that the process printed.
#[derive(Debug)]
pub struct FrpcLog {
    pub lines: VecDeque<String>,
}

impl View for FrpcLog {
    type V = Seq<Seq<char>>;

    open spec fn view(&self) -> Seq<Seq<char>> {
        views(self.lines@)
    }
}

/// The lines once another one is there: the oldest makes room where there is none.
pub open spec fn with_line(lines: Seq<Seq<char>>, line: Seq<char>) -> Seq<Seq<char>> {
    if lines.len() >= MAX_LOG_LINES {
        lines.drop_first().push(line)
    } else {
        lines.push(line)
    }
}

impl FrpcLog {
    /// Nothing has been printed.
    pub fn new() -> (res: FrpcLog)
        ensures
            res@ == Seq::<Seq<char>>::empty(),
    {
        let res = FrpcLog { lines: VecDeque::new() };
        assert(res@ =~= Seq::<Seq<char>>::empty());
        res
    }

    /// Keeps a line that the process printed, without its secrets and cut to a fixed length.
    pub fn capture(&mut self, line: &str, secrets: &Vec<String>)
        ensures
            final(self)@ == with_line(
                old(self)@,
                first_chars(redacted(line@, views(secrets@)), MAX_LINE_CHARS as nat),
            ),
            old(self)@.len() <= MAX_LOG_LINES ==> final(self)@.len() <= MAX_LOG_LINES,
            final(self)@.last().len() <= 500,
            redacted(line@, views(secrets@)).len() <= 500 ==> final(self)@.last() == redacted(
                line@,
                views(secrets@),
            ),
    {
        let clean = redact(line, secrets);
        let short = cut(clean.as_str(), MAX_LINE_CHARS);
        if self.lines.len() >= MAX_LOG_LINES {
            let _ = self.lines.pop_front();
            assert(self@ =~= old(self)@.drop_first());
        }
        let ghost before = self@;
        self.lines.push_back(short);
        assert(self@ =~= before.push(short@));
    }

    /// The lines, oldest first.
    pub fn to_vec(&self) -> (res: Vec<String>)
        ensures
            views(res@) == self@,
    {
        let mut out: Vec<String> = Vec::new();
        let mut i: usize = 0;
        while i < self.lines.len()
            invariant
                i <= self.lines@.len(),
                views(out@) == self@.take(i as int),
            decreases self.lines@.len() - i,
        {
            let line = self.lines[i].as_str().to_owned();
            assert(line@ == self@[i as int]);
            let ghost before = views(out@);
            out.push(line);
            assert(views(out@) =~= before.push(line@));
            i = i + 1;
            assert(views(out@) =~= self@.take(i as int));
        }
        assert(self@.take(i as int) =~= self@);
        out
    }
}

/// What is reported of a process that has ended.
pub open spec fn exit_report(status: Seq<char>, lines: Seq<Seq<char>>) -> Seq<char> {
    let logs = joined(lines, " | "@);
    if logs.len() == 0 {
        "frpc 已退出: "@ + status
    } else {
        "frpc 已退出: "@ + status + "，日志: "@ + logs
    }
}

/// A text that none of the parts holds, and that cannot touch what stands between them, is not in
/// the whole.
proof fn lemma_joined_keeps_out(parts: Seq<Seq<char>>, sep: Seq<char>, q: Seq<char>)
    requires
        q.len() > 0,
        sep.len() > 0,
        never_touch(q, sep),
        forall|i: int| 0 <= i < parts.len() ==> !has_text(#[trigger] parts[i], q),
    ensures
        !has_text(joined(parts, sep), q),
    decreases parts.len(),
{
    let whole = joined(parts, sep);
    if has_text(whole, q) {
        let at = choose|i: int| occurs_at(whole, q, i);
        if parts.len() == 0 {
            assert(false);
        } else if parts.len() == 1 {
            assert(!has_text(parts[0], q));
            assert(false);
        } else {
            let rest = parts.drop_last();
            assert forall|i: int| 0 <= i < rest.len() implies !has_text(#[trigger] rest[i], q) by {
                assert(rest[i] == parts[i]);
            }
            lemma_joined_keeps_out(rest, sep, q);
            let head = joined(rest, sep);
            let last = parts.last();
            let n = head.len() as int;
            let m = sep.len() as int;
            if at + q.len() <= n {
                assert(head.subrange(at, at + q.len()) =~= whole.subrange(at, at + q.len()));
                assert(occurs_at(head, q, at));
            } else if at >= n + m {
                let k = at - n - m;
                assert(last.subrange(k, k + q.len()) =~= whole.subrange(at, at + q.len()));
                assert(occurs_at(last, q, k));
                assert(!has_text(parts[parts.len() - 1], q));
            } else {
                assert(agrees(q, sep, at - n)) by {
                    assert forall|k: int|
                        0 <= k < q.len() && 0 <= at - n + k < sep.len() implies #[trigger] q[k]
                        == sep[at - n + k] by {
                        assert(whole.subrange(at, at + q.len())[k] == q[k]);
                        assert(whole[at + k] == sep[at + k - n]);
                    }
                }
            }
            assert(false);
        }
    }
}

/// What is reported of the lines of a process does not show a secret, as long as the secret cannot
/// touch what is put in its place or between the lines.
pub proof fn law_reported_log_hides_secrets(
    printed: Seq<Seq<char>>,
    secrets: Seq<Seq<char>>,
    k: int,
)
    requires
        0 <= k < secrets.len(),
        secrets[k].len() > 0,
        never_touch(secrets[k], "[已脱敏]"@),
        never_touch(secrets[k], " | "@),
    ensures
        ({
            let kept = printed.map_values(
                |line: Seq<char>| first_chars(redacted(line, secrets), MAX_LINE_CHARS as nat),
            );
            !has_text(joined(kept, " | "@), secrets[k])
        }),
{
    reveal_strlit(" | ");
    let kept = printed.map_values(
        |line: Seq<char>| first_chars(redacted(line, secrets), MAX_LINE_CHARS as nat),
    );
    assert forall|i: int| 0 <= i < kept.len() implies !has_text(#[trigger] kept[i], secrets[k]) by {
        law_redaction_removes_secrets(printed[i], secrets, k, MAX_LINE_CHARS as nat);
    }
    lemma_joined_keeps_out(kept, " | "@, secrets[k]);
}

/// What is reported of a process that has ended with the given status: its last lines as well,
/// where it printed any.
pub fn exit_message(status: &str, log: &FrpcLog) -> (res: String)
    ensures
        res@ == exit_report(status@, log@),
{
    let lines = log.to_vec();
    let logs = join(&lines, " | ");
    let head = "frpc 已退出: ".to_owned().concat(status);
    if logs.as_str().is_empty() {
        head
    } else {
        head.concat("，日志: ").concat(logs.as_str())
    }
}

/// What asking for the state of the process gave.
#[derive(Debug)]
pub enum ProcessState {
    /// There is no process, or it runs.
    Running,
    /// It has ended with this status.
    Exited(String),
    /// Its state is not known, for this reason.
    Unknown(String),
}

/// Why the process cannot be counted on any more, if that is so.
pub fn frpc_exit_error(state: ProcessState, log: &FrpcLog) -> (res: Option<String>)
    ensures
        match state {
            ProcessState::Running => res is None,
            ProcessState::Exited(status) => res matches Some(m) && m@ == exit_report(status@, log@),
            ProcessState::Unknown(e) => res matches Some(m) && m@ == "检查frpc状态失败: "@ + e@,
        },
{
    match state {
        ProcessState::Running => None,
        ProcessState::Exited(status) => Some(exit_message(status.as_str(), log)),
        ProcessState::Unknown(e) => Some("检查frpc状态失败: ".to_owned().concat(e.as_str())),
    }
}

// ----- what the file tells frpc -----

/// The configuration file, read line by line, tells frpc each setting under its name: the address and
/// the port of the node, the token of the user as `user` and that of the node as `token`, the name of
/// the tunnel as the section, and behind it the two ports.
pub proof fn law_config_tells_each_setting(s: FrpcSettingsView)
    requires
        bad_field(s.node_ip, s.user_token, s.node_token, s.tunnel_name) is None,
    ensures
        ({
            let lines = split_on(as_lines(settings_lines(s)), '\n');
            let section = seq!['['] + s.tunnel_name + seq![']'];
            &&& lines.contains("server_addr = "@ + s.node_ip)
            &&& lines.contains("server_port = "@ + decimal(s.server_port as nat))
            &&& lines.contains("user = "@ + s.user_token)
            &&& lines.contains("token = "@ + s.node_token)
            &&& lines.contains(section)
            &&& lines.contains("type = tcp"@)
            &&& lines.contains("local_ip = 127.0.0.1"@)
            &&& lines.contains("local_port = "@ + decimal(s.local_port as nat))
            &&& lines.contains("remote_port = "@ + decimal(s.remote_port as nat))
            &&& lines[0] == "[common]"@
            &&& forall|i: int|
                0 <= i < lines.len() && begins_with(#[trigger] lines[i], "token = "@) ==> lines[i]
                    == "token = "@ + s.node_token
            &&& forall|i: int|
                0 <= i < lines.len() && begins_with(#[trigger] lines[i], "user = "@) ==> lines[i]
                    == "user = "@ + s.user_token
        }),
{
    law_config_has_only_its_lines(
        s.node_ip,
        s.server_port,
        s.user_token,
        s.node_token,
        s.local_port,
        s.remote_port,
        s.tunnel_name,
    );
    let lines = split_on(as_lines(settings_lines(s)), '\n');
    reveal_strlit("[common]");
    reveal_strlit("server_addr = ");
    reveal_strlit("server_port = ");
    reveal_strlit("user = ");
    reveal_strlit("token = ");
    reveal_strlit("log_level = info");
    reveal_strlit("tls_enable = false");
    reveal_strlit("tcp_mux = true");
    reveal_strlit("pool_count = 5");
    reveal_strlit("");
    reveal_strlit("[");
    reveal_strlit("]");
    reveal_strlit("type = tcp");
    reveal_strlit("local_ip = 127.0.0.1");
    reveal_strlit("local_port = ");
    reveal_strlit("remote_port = ");
    let section = seq!['['] + s.tunnel_name + seq![']'];
    assert("["@ + s.tunnel_name + "]"@ =~= section);
    assert(lines[1] == "server_addr = "@ + s.node_ip);
    assert(lines[2] == "server_port = "@ + decimal(s.server_port as nat));
    assert(lines[3] == "user = "@ + s.user_token);
    assert(lines[4] == "token = "@ + s.node_token);
    assert(lines[10] == section);
    assert(lines[11] == "type = tcp"@);
    assert(lines[12] == "local_ip = 127.0.0.1"@);
    assert(lines[13] == "local_port = "@ + decimal(s.local_port as nat));
    assert(lines[14] == "remote_port = "@ + decimal(s.remote_port as nat));
    assert forall|i: int|
        0 <= i < lines.len() && begins_with(#[trigger] lines[i], "token = "@) implies lines[i]
        == "token = "@ + s.node_token by {
        let p = lines[i].subrange(0, 8);
        assert(p[0] == lines[i][0] && p[1] == lines[i][1]);
        assert(p[0] == 't' && p[1] == 'o');
    }
    assert forall|i: int|
        0 <= i < lines.len() && begins_with(#[trigger] lines[i], "user = "@) implies lines[i]
        == "user = "@ + s.user_token by {
        let p = lines[i].subrange(0, 7);
        assert(p[0] == lines[i][0]);
        assert(p[0] == 'u');
    }
}

/// A value is refused exactly where it holds the end of a line, a bracket, an equals sign or a zero,
/// and the first such value is named.
pub proof fn law_values_with_marks_are_refused(
    node_ip: Seq<char>,
    user_token: Seq<char>,
    node_token: Seq<char>,
    tunnel_name: Seq<char>,
)
    ensures
        ({
            let marked = |s: Seq<char>|
                s.contains('\n') || s.contains('\r') || s.contains('[') || s.contains(']')
                    || s.contains('=') || s.contains('\0');
            let bad = bad_field(node_ip, user_token, node_token, tunnel_name);
            &&& bad is None <==> !marked(node_ip) && !marked(user_token) && !marked(node_token)
                && !marked(tunnel_name)
            &&& marked(node_ip) ==> bad == Some("server_addr"@)
            &&& !marked(node_ip) && marked(user_token) ==> bad == Some("user"@)
            &&& !marked(node_ip) && !marked(user_token) && marked(node_token) ==> bad == Some(
                "token"@,
            )
            &&& !marked(node_ip) && !marked(user_token) && !marked(node_token) && marked(tunnel_name)
                ==> bad == Some("tunnel_name"@)
        }),
{
    lemma_marks(node_ip);
    lemma_marks(user_token);
    lemma_marks(node_token);
    lemma_marks(tunnel_name);
}

/// A value that is refused holds one of the characters, and every other does not.
proof fn lemma_marks(s: Seq<char>)
    ensures
        !is_ini_value(s) <==> s.contains('\n') || s.contains('\r') || s.contains('[') || s.contains(
            ']',
        ) || s.contains('=') || s.contains('\0'),
{
    if !is_ini_value(s) {
        let i = choose|i: int| 0 <= i < s.len() && is_ini_mark(#[trigger] s[i]);
        assert(s.contains(s[i]));
    }
    if is_ini_value(s) {
        assert forall|i: int| 0 <= i < s.len() implies !is_ini_mark(#[trigger] s[i]) by {}
    }
}

/// The log keeps the newest thirty lines in their order: another line is the last of them, and only
/// the oldest makes room.
pub proof fn law_log_keeps_the_newest_lines(printed: Seq<Seq<char>>, line: Seq<char>)
    ensures
        with_line(crate::logs::last_lines(printed, 30), line) == crate::logs::last_lines(
            printed.push(line),
            30,
        ),
{
    assert(with_line(crate::logs::last_lines(printed, 30), line) =~= crate::logs::last_lines(
        printed.push(line),
        30,
    ));
}

/// What is reported of a process that has ended tells its status, and behind it the lines that it
/// printed last.
pub proof fn law_report_tells_status_and_lines(status: Seq<char>, lines: Seq<Seq<char>>)
    ensures
        has_text(exit_report(status, lines), status),
        crate::text::finishes_with(exit_report(status, lines), joined(lines, " | "@)),
{
    let head = "frpc 已退出: "@;
    let report = exit_report(status, lines);
    let logs = joined(lines, " | "@);
    let at = head.len() as int;
    assert(report.subrange(at, at + status.len()) =~= status);
    assert(occurs_at(report, status, at));
    assert(report.subrange(report.len() - logs.len(), report.len() as int) =~= logs);
}

} // verus!
