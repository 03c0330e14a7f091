//! SSH host keys: the key record, the `known_hosts` line format, key-format
//! validation and the short descriptions shown to administrators.
use vstd::prelude::*;
use crate::text::{
    append_str, char_seqs, chars_of, has_prefix, slice_to_vec, starts_with_chars, join, join_chars, lacks, lemma_join_tokens,
    lemma_split_on_append, lemma_split_on_push_sep, lemma_split_ws_concat,
    lemma_split_ws_token, lemma_split_ws_tokens, lines, no_ws, push_char, split_lines, split_on, split_whitespace,
    split_ws, string_of, strip_cr, owned,
};

verus! {

/// One host key: the host it belongs to, the key text (`<type> <base64> [comment]`)
/// and whether an administrator has retired it.
#[derive(Clone, Debug, PartialEq, Eq)]
pub struct SshKey {
    pub server: String,
    pub public_key: String,
    pub deprecated: bool,
}

/// The mathematical value of an [`SshKey`].
pub struct KeyView {
    pub server: Seq<char>,
    pub public_key: Seq<char>,
    pub deprecated: bool,
}

impl View for SshKey {
    type V = KeyView;

    open spec fn view(&self) -> KeyView {
        KeyView { server: self.server@, public_key: self.public_key@, deprecated: self.deprecated }
    }
}

/// A named set of hosts whose keys are shared.
#[derive(Clone, Debug)]
pub struct Flow {
    pub name: String,
    pub servers: Vec<SshKey>,
}

/// The mathematical value of a [`Flow`].
pub struct FlowView {
    pub name: Seq<char>,
    pub servers: Seq<KeyView>,
}

impl View for Flow {
    type V = FlowView;

    open spec fn view(&self) -> FlowView {
        FlowView { name: self.name@, servers: keys_view(self.servers@) }
    }
}

/// The values of a list of keys.
pub open spec fn keys_view(v: Seq<SshKey>) -> Seq<KeyView> {
    v.map_values(|k: SshKey| k@)
}

/// The values of a list of flows.
pub open spec fn flows_view(v: Seq<Flow>) -> Seq<FlowView> {
    v.map_values(|f: Flow| f@)
}

/// The values of a list of strings.
pub open spec fn strings_view(v: Seq<String>) -> Seq<Seq<char>> {
    v.map_values(|s: String| s@)
}

impl SshKey {
    /// A field-by-field copy.
    pub fn duplicate(&self) -> (r: SshKey)
        ensures
            r@ == self@,
    {
        SshKey {
            server: self.server.clone(),
            public_key: self.public_key.clone(),
            deprecated: self.deprecated,
        }
    }
}

/// A copy of a list of keys.
pub fn copy_keys(v: &Vec<SshKey>) -> (r: Vec<SshKey>)
    ensures
        keys_view(r@) == keys_view(v@),
{
    let mut r: Vec<SshKey> = Vec::new();
    let mut i: usize = 0;
    while i < v.len()
        invariant
            i <= v.len(),
            r@.len() == i,
            keys_view(r@) =~= keys_view(v@).take(i as int),
        decreases v.len() - i,
    {
        let k = v[i].duplicate();
        let ghost before = r@;
        r.push(k);
        assert(r@ == before.push(k));
        assert(keys_view(r@)[i as int] == v@[i as int]@);
        assert(keys_view(r@) =~= keys_view(v@).take(i as int + 1));
        i = i + 1;
    }
    assert(keys_view(v@).take(v@.len() as int) =~= keys_view(v@));
    r
}

// ---------------------------------------------------------------------------
// known_hosts lines
// ---------------------------------------------------------------------------

/// The key a `known_hosts` line describes: the first whitespace-separated field is the
/// host, the remaining fields joined by single spaces are the key. Lines with fewer
/// than two fields describe nothing.
pub open spec fn parse_line_spec(line: Seq<char>) -> Option<KeyView> {
    let parts = split_ws(line);
    if parts.len() >= 2 {
        Some(
            KeyView {
                server: parts[0],
                public_key: join(parts.skip(1), seq![' ']),
                deprecated: false,
            },
        )
    } else {
        None
    }
}

/// The keys described by a sequence of lines, in order.
pub open spec fn parse_lines_spec(lines: Seq<Seq<char>>) -> Seq<KeyView>
    decreases lines.len(),
{
    if lines.len() == 0 {
        Seq::empty()
    } else {
        let prev = parse_lines_spec(lines.drop_last());
        match parse_line_spec(lines.last()) {
            Some(k) => prev.push(k),
            None => prev,
        }
    }
}

/// The `known_hosts` line written for a key: host, one space, key.
pub open spec fn format_line_spec(k: KeyView) -> Seq<char> {
    k.server + seq![' '] + k.public_key
}

/// The text of a `known_hosts` file holding the given keys, one line each.
pub open spec fn format_file_spec(keys: Seq<KeyView>) -> Seq<char>
    decreases keys.len(),
{
    if keys.len() == 0 {
        Seq::empty()
    } else {
        format_file_spec(keys.drop_last()) + format_line_spec(keys.last()) + seq!['\n']
    }
}

/// Parses one `known_hosts` line.
pub fn parse_known_hosts_line(line: &str) -> (r: Option<SshKey>)
    ensures
        r matches Some(k) ==> parse_line_spec(line@) == Some(k@),
        r is None ==> parse_line_spec(line@) is None,
{
    let chars = chars_of(line);
    let parts = split_whitespace(chars.as_slice());
    if parts.len() >= 2 {
        let server = string_of(parts[0].as_slice());
        let key = join_chars(&parts, 1, &[' ']);
        assert(char_seqs(parts@)[0] == parts@[0]@);
        let key_text = string_of(key.as_slice());
        assert([' ']@ =~= seq![' ']);
        Some(SshKey { server, public_key: key_text, deprecated: false })
    } else {
        None
    }
}

/// Parses the lines of a `known_hosts` file, keeping every line that describes a key.
pub fn parse_known_hosts(lines: &Vec<String>) -> (r: Vec<SshKey>)
    ensures
        keys_view(r@) == parse_lines_spec(strings_view(lines@)),
{
    let mut r: Vec<SshKey> = Vec::new();
    let mut i: usize = 0;
    while i < lines.len()
        invariant
            i <= lines.len(),
            keys_view(r@) == parse_lines_spec(strings_view(lines@).take(i as int)),
        decreases lines.len() - i,
    {
        let ghost t = strings_view(lines@).take(i as int + 1);
        assert(t.drop_last() =~= strings_view(lines@).take(i as int));
        assert(t.last() == lines@[i as int]@);
        match parse_known_hosts_line(lines[i].as_str()) {
            Some(k) => {
                r.push(k);
                assert(keys_view(r@) =~= parse_lines_spec(t));
            },
            None => {},
        }
        i = i + 1;
    }
    assert(strings_view(lines@).take(lines@.len() as int) =~= strings_view(lines@));
    r
}

/// Parses the whole text of a `known_hosts` file: its lines, each without its line
/// break, keeping every line that describes a key.
pub fn parse_known_hosts_text(text: &str) -> (r: Vec<SshKey>)
    ensures
        keys_view(r@) == parse_lines_spec(lines(text@)),
{
    let chars = chars_of(text);
    let ls = split_lines(chars.as_slice());
    let ghost lv = char_seqs(ls@);
    let mut r: Vec<SshKey> = Vec::new();
    let mut i: usize = 0;
    while i < ls.len()
        invariant
            i <= ls.len(),
            lv == char_seqs(ls@),
            lv == lines(text@),
            keys_view(r@) == parse_lines_spec(lv.take(i as int)),
        decreases ls.len() - i,
    {
        let ghost t = lv.take(i as int + 1);
        assert(t.drop_last() =~= lv.take(i as int));
        assert(t.last() == ls@[i as int]@);
        let line = string_of(ls[i].as_slice());
        match parse_known_hosts_line(line.as_str()) {
            Some(k) => {
                r.push(k);
                assert(keys_view(r@) =~= parse_lines_spec(t));
            },
            None => {},
        }
        i = i + 1;
    }
    assert(lv.take(ls@.len() as int) =~= lv);
    r
}

/// The `known_hosts` line for a key.
pub fn known_hosts_line(key: &SshKey) -> (r: String)
    ensures
        r@ == format_line_spec(key@),
{
    let mut r = key.server.clone();
    push_char(&mut r, ' ');
    append_str(&mut r, key.public_key.as_str());
    r
}

/// The full text of a `known_hosts` file for the given keys.
pub fn known_hosts_text(keys: &Vec<SshKey>) -> (r: String)
    ensures
        r@ == format_file_spec(keys_view(keys@)),
{
    let mut r = String::new();
    let mut i: usize = 0;
    while i < keys.len()
        invariant
            i <= keys.len(),
            r@ == format_file_spec(keys_view(keys@).take(i as int)),
        decreases keys.len() - i,
    {
        let ghost t = keys_view(keys@).take(i as int + 1);
        assert(t.drop_last() =~= keys_view(keys@).take(i as int));
        let line = known_hosts_line(&keys[i]);
        append_str(&mut r, line.as_str());
        push_char(&mut r, '\n');
        i = i + 1;
    }
    assert(keys_view(keys@).take(keys@.len() as int) =~= keys_view(keys@));
    r
}

// ---------------------------------------------------------------------------
// Round trip of the known_hosts format
// ---------------------------------------------------------------------------

/// A host field that survives the file format: non-empty, no whitespace.
pub open spec fn is_host_field(s: Seq<char>) -> bool {
    s.len() > 0 && no_ws(s)
}

/// A key field that survives the file format: at least one field, and the fields
/// separated by single spaces with nothing before or after.
pub open spec fn is_key_field(s: Seq<char>) -> bool {
    split_ws(s).len() >= 1 && join(split_ws(s), seq![' ']) == s
}

/// A key whose line reads back as itself.
pub open spec fn is_storable(k: KeyView) -> bool {
    is_host_field(k.server) && is_key_field(k.public_key) && !k.deprecated
}

/// Writing a key as a `known_hosts` line and reading the line back gives the same key.
pub proof fn lemma_line_round_trip(k: KeyView)
    requires
        is_storable(k),
    ensures
        parse_line_spec(format_line_spec(k)) == Some(k),
{
    let toks = split_ws(k.public_key);
    lemma_split_ws_token(k.server);
    lemma_split_ws_concat(k.server, ' ', k.public_key);
    let parts = split_ws(format_line_spec(k));
    assert(parts == seq![k.server] + toks);
    assert(parts.skip(1) =~= toks);
    assert(parts[0] == k.server);
}

/// A stored line has no line break and does not end in a carriage return.
proof fn lemma_line_shape(k: KeyView)
    requires
        is_storable(k),
    ensures
        lacks(format_line_spec(k), '\n'),
        format_line_spec(k).len() > 0,
        format_line_spec(k).last() != '\r',
{
    let toks = split_ws(k.public_key);
    lemma_split_ws_tokens(k.public_key);
    lemma_join_tokens(toks);
    let l = format_line_spec(k);
    assert(l.last() == k.public_key.last());
    assert forall|i: int| 0 <= i < l.len() implies #[trigger] l[i] != '\n' by {
        if i < k.server.len() {
            assert(l[i] == k.server[i]);
        } else if i > k.server.len() {
            assert(l[i] == k.public_key[i - k.server.len() - 1]);
        }
    }
}

/// The pieces of a written `known_hosts` file are the lines of its keys and a final
/// empty piece.
proof fn lemma_file_pieces(keys: Seq<KeyView>)
    requires
        forall|i: int| 0 <= i < keys.len() ==> is_storable(#[trigger] keys[i]),
    ensures
        split_on(format_file_spec(keys), '\n') == keys.map_values(|k: KeyView| format_line_spec(k)).push(
            Seq::empty(),
        ),
    decreases keys.len(),
{
    if keys.len() == 0 {
        assert(split_on(Seq::<char>::empty(), '\n') =~= seq![Seq::<char>::empty()]);
        assert(keys.map_values(|k: KeyView| format_line_spec(k)).push(Seq::empty()) =~= seq![
            Seq::<char>::empty(),
        ]);
    } else {
        let init = keys.drop_last();
        let k = keys.last();
        assert(k == keys[keys.len() - 1]);
        assert forall|i: int| 0 <= i < init.len() implies is_storable(#[trigger] init[i]) by {
            assert(init[i] == keys[i]);
        }
        lemma_file_pieces(init);
        lemma_line_shape(k);
        let f0 = format_file_spec(init);
        let l = format_line_spec(k);
        let p0 = split_on(f0, '\n');
        lemma_split_on_append(f0, l, '\n');
        lemma_split_on_push_sep(f0 + l, '\n');
        assert(format_file_spec(keys) == (f0 + l).push('\n'));
        assert(p0.last() == Seq::<char>::empty());
        assert(p0.last() + l =~= l);
        assert(p0.update(p0.len() - 1, l).push(Seq::empty()) =~= keys.map_values(
            |k: KeyView| format_line_spec(k),
        ).push(Seq::empty()));
    }
}

/// The lines of a written `known_hosts` file are the lines of its keys.
pub proof fn lemma_file_lines(keys: Seq<KeyView>)
    requires
        forall|i: int| 0 <= i < keys.len() ==> is_storable(#[trigger] keys[i]),
    ensures
        lines(format_file_spec(keys)) == keys.map_values(|k: KeyView| format_line_spec(k)),
{
    lemma_file_pieces(keys);
    let ls = keys.map_values(|k: KeyView| format_line_spec(k));
    let p = split_on(format_file_spec(keys), '\n');
    assert(p.drop_last() =~= ls);
    assert forall|i: int| 0 <= i < ls.len() implies strip_cr(#[trigger] ls[i]) == ls[i] by {
        lemma_line_shape(keys[i]);
    }
    assert(ls.map_values(|l: Seq<char>| strip_cr(l)) =~= ls);
}

/// Writing keys to a `known_hosts` file and reading the file back gives the same keys.
pub proof fn lemma_file_round_trip(keys: Seq<KeyView>)
    requires
        forall|i: int| 0 <= i < keys.len() ==> is_storable(#[trigger] keys[i]),
    ensures
        parse_lines_spec(lines(format_file_spec(keys))) == keys,
{
    lemma_file_lines(keys);
    lemma_parse_lines_of_keys(keys);
}

/// Reading the lines of keys back gives the keys.
proof fn lemma_parse_lines_of_keys(keys: Seq<KeyView>)
    requires
        forall|i: int| 0 <= i < keys.len() ==> is_storable(#[trigger] keys[i]),
    ensures
        parse_lines_spec(keys.map_values(|k: KeyView| format_line_spec(k))) == keys,
    decreases keys.len(),
{
    let ls = keys.map_values(|k: KeyView| format_line_spec(k));
    if keys.len() > 0 {
        let init = keys.drop_last();
        assert forall|i: int| 0 <= i < init.len() implies is_storable(#[trigger] init[i]) by {
            assert(init[i] == keys[i]);
        }
        lemma_parse_lines_of_keys(init);
        assert(ls.drop_last() =~= init.map_values(|k: KeyView| format_line_spec(k)));
        assert(keys.last() == keys[keys.len() - 1]);
        lemma_line_round_trip(keys.last());
        assert(init.push(keys.last()) =~= keys);
    } else {
        assert(ls.len() == 0);
    }
}

// ---------------------------------------------------------------------------
// Key-format validation
// ---------------------------------------------------------------------------

/// Whether `pattern` is accepted by `regex::Regex::new`.
pub uninterp spec fn regex_compiles(pattern: Seq<char>) -> bool;

/// Whether the regular expression `pattern` matches `text` (`regex::Regex::is_match`).
pub uninterp spec fn regex_matches(pattern: Seq<char>, text: Seq<char>) -> bool;

/// A character of the base64 alphabet: `[0-9A-Za-z+/]`.
pub open spec fn is_b64_char(c: char) -> bool {
    ('0' <= c && c <= '9') || ('A' <= c && c <= 'Z') || ('a' <= c && c <= 'z') || c == '+'
        || c == '/'
}

/// `t` splits as `i` base64 characters (at least one), `j` `=` signs (at most three),
/// then either nothing or a space and at least one further character, none of them a
/// line feed: `[0-9A-Za-z+/]+[=]{0,3}( .+)?` up to the end.
pub open spec fn key_tail_split(t: Seq<char>, i: int, j: int) -> bool {
    &&& 1 <= i
    &&& 0 <= j <= 3
    &&& i + j <= t.len()
    &&& forall|k: int| 0 <= k < i ==> is_b64_char(#[trigger] t[k])
    &&& forall|k: int| i <= k < i + j ==> #[trigger] t[k] == '='
    &&& (t.len() == i + j || (t[i + j] == ' ' && t.len() >= i + j + 2 && forall|k: int|
        i + j + 1 <= k < t.len() ==> #[trigger] t[k] != '\n'))
}

/// A key text of the given type: `<type> AAAA`, then base64 characters, up to three
/// `=` signs, and an optional comment after a space, on one line.
pub open spec fn key_format(text: Seq<char>, key_type: Seq<char>) -> bool {
    has_prefix(text, key_type + " AAAA"@) && exists|i: int, j: int|
        #[trigger] key_tail_split(text.skip(key_type.len() as int + 5), i, j)
}

/// An ECDSA key text on one of the three NIST curves.
pub open spec fn ecdsa_format(text: Seq<char>) -> bool {
    key_format(text, "ecdsa-sha2-nistp256"@) || key_format(text, "ecdsa-sha2-nistp384"@)
        || key_format(text, "ecdsa-sha2-nistp521"@)
}

/// A key text in one of the accepted formats, described character by character.
pub open spec fn valid_key_format(text: Seq<char>) -> bool {
    ||| key_format(text, "ssh-rsa"@)
    ||| key_format(text, "ssh-dss"@)
    ||| ecdsa_format(text)
    ||| key_format(text, "ssh-ed25519"@)
}

/// Compiles `pattern` with `regex::Regex::new` and, when it compiles, tests `text`
/// with `Regex::is_match`. Claims that `Some` comes back exactly when the pattern
/// compiles and that the answer is a function of pattern and text. For the four key
/// patterns of this library it also claims their meaning as the regex crate documents
/// its syntax (`^`/`$` the ends of the text, `.` any character but a line feed,
/// `{0,3}` up to three, `+` one or more, `?` optional); other patterns' semantics are
/// not restated.
#[verifier::external_body]
fn regex_is_match(pattern: &str, text: &str) -> (r: Option<bool>)
    ensures
        r is Some <==> regex_compiles(pattern@),
        r matches Some(b) ==> b == regex_matches(pattern@, text@),
        pattern@ == rsa_pattern() ==> r == Some(key_format(text@, "ssh-rsa"@)),
        pattern@ == dsa_pattern() ==> r == Some(key_format(text@, "ssh-dss"@)),
        pattern@ == ecdsa_pattern() ==> r == Some(ecdsa_format(text@)),
        pattern@ == ed25519_pattern() ==> r == Some(key_format(text@, "ssh-ed25519"@)),
{
    regex::Regex::new(pattern).ok().map(|re| re.is_match(text))
}

/// The pattern for RSA keys.
pub open spec fn rsa_pattern() -> Seq<char> {
    "^ssh-rsa AAAA[0-9A-Za-z+/]+[=]{0,3}( .+)?$"@
}

/// The pattern for DSA keys.
pub open spec fn dsa_pattern() -> Seq<char> {
    "^ssh-dss AAAA[0-9A-Za-z+/]+[=]{0,3}( .+)?$"@
}

/// The pattern for ECDSA keys.
pub open spec fn ecdsa_pattern() -> Seq<char> {
    "^ecdsa-sha2-nistp(256|384|521) AAAA[0-9A-Za-z+/]+[=]{0,3}( .+)?$"@
}

/// The pattern for Ed25519 keys.
pub open spec fn ed25519_pattern() -> Seq<char> {
    "^ssh-ed25519 AAAA[0-9A-Za-z+/]+[=]{0,3}( .+)?$"@
}

/// `pattern` compiles and matches `text`.
pub open spec fn accepted_by(pattern: Seq<char>, text: Seq<char>) -> bool {
    regex_compiles(pattern) && regex_matches(pattern, text)
}

/// A key text in one of the accepted formats.
pub open spec fn valid_key_spec(key: Seq<char>) -> bool {
    ||| accepted_by(rsa_pattern(), key)
    ||| accepted_by(dsa_pattern(), key)
    ||| accepted_by(ecdsa_pattern(), key)
    ||| accepted_by(ed25519_pattern(), key)
}

/// Whether `text` matches `pattern`, a pattern that does not compile matching nothing.
fn matches_pattern(pattern: &str, text: &str) -> (b: bool)
    ensures
        b == accepted_by(pattern@, text@),
        pattern@ == rsa_pattern() ==> b == key_format(text@, "ssh-rsa"@),
        pattern@ == dsa_pattern() ==> b == key_format(text@, "ssh-dss"@),
        pattern@ == ecdsa_pattern() ==> b == ecdsa_format(text@),
        pattern@ == ed25519_pattern() ==> b == key_format(text@, "ssh-ed25519"@),
{
    match regex_is_match(pattern, text) {
        Some(b) => b,
        None => false,
    }
}

/// Whether a key text has the shape of an RSA, DSA, ECDSA or Ed25519 public key.
pub fn is_valid_ssh_key(key: &str) -> (b: bool)
    ensures
        b == valid_key_spec(key@),
        b == valid_key_format(key@),
{
    let rsa = "^ssh-rsa AAAA[0-9A-Za-z+/]+[=]{0,3}( .+)?$";
    let dsa = "^ssh-dss AAAA[0-9A-Za-z+/]+[=]{0,3}( .+)?$";
    let ecdsa = "^ecdsa-sha2-nistp(256|384|521) AAAA[0-9A-Za-z+/]+[=]{0,3}( .+)?$";
    let ed25519 = "^ssh-ed25519 AAAA[0-9A-Za-z+/]+[=]{0,3}( .+)?$";
    matches_pattern(rsa, key) || matches_pattern(dsa, key) || matches_pattern(ecdsa, key)
        || matches_pattern(ed25519, key)
}

/// Checks every submitted key; on the first one in an unaccepted format, gives the
/// position of that key.
pub fn find_invalid_key(keys: &Vec<SshKey>) -> (r: Option<usize>)
    ensures
        r matches Some(i) ==> i < keys.len() && !valid_key_spec(keys@[i as int]@.public_key)
            && forall|j: int| 0 <= j < i ==> valid_key_spec(#[trigger] keys@[j]@.public_key),
        r is None <==> forall|j: int|
            0 <= j < keys.len() ==> valid_key_spec(#[trigger] keys@[j]@.public_key),
{
    let mut i: usize = 0;
    while i < keys.len()
        invariant
            i <= keys.len(),
            forall|j: int| 0 <= j < i ==> valid_key_spec(#[trigger] keys@[j]@.public_key),
        decreases keys.len() - i,
    {
        if !is_valid_ssh_key(keys[i].public_key.as_str()) {
            assert(!valid_key_spec(keys@[i as int]@.public_key));
            return Some(i);
        }
        i = i + 1;
    }
    None
}

// ---------------------------------------------------------------------------
// Key descriptions
// ---------------------------------------------------------------------------

/// The algorithm name shown for a key text, read from its prefix.
pub open spec fn key_type_spec(public_key: Seq<char>) -> Seq<char> {
    if has_prefix(public_key, "ssh-rsa"@) {
        "RSA"@
    } else if has_prefix(public_key, "ssh-ed25519"@) {
        "ED25519"@
    } else if has_prefix(public_key, "ecdsa-sha2-nistp"@) {
        "ECDSA"@
    } else if has_prefix(public_key, "ssh-dss"@) {
        "DSA"@
    } else {
        "Unknown"@
    }
}

/// Whether a key text starts with the given prefix.
fn key_starts_with(key: &[char], prefix: &str) -> (b: bool)
    ensures
        b == has_prefix(key@, prefix@),
{
    let p = chars_of(prefix);
    starts_with_chars(key, p.as_slice())
}

/// The algorithm name of a key text: RSA, ED25519, ECDSA, DSA or Unknown.
pub fn key_type_name(public_key: &str) -> (r: String)
    ensures
        r@ == key_type_spec(public_key@),
{
    let k = chars_of(public_key);
    if key_starts_with(k.as_slice(), "ssh-rsa") {
        owned("RSA")
    } else if key_starts_with(k.as_slice(), "ssh-ed25519") {
        owned("ED25519")
    } else if key_starts_with(k.as_slice(), "ecdsa-sha2-nistp") {
        owned("ECDSA")
    } else if key_starts_with(k.as_slice(), "ssh-dss") {
        owned("DSA")
    } else {
        owned("Unknown")
    }
}

/// The smaller of two numbers.
pub open spec fn min_nat(a: nat, b: nat) -> nat {
    if a <= b {
        a
    } else {
        b
    }
}

/// The short form of a key text: the first `n` characters of its second field, marked
/// with `...` when the field is longer; a text with fewer than two fields gives its
/// first `n` characters, marked with `...`.
pub open spec fn preview_spec(public_key: Seq<char>, n: nat) -> Seq<char> {
    let parts = split_ws(public_key);
    if parts.len() >= 2 {
        if parts[1].len() > n {
            parts[1].take(n as int) + "..."@
        } else {
            parts[1]
        }
    } else {
        public_key.take(min_nat(n, public_key.len()) as int) + "..."@
    }
}

/// The short form of a key text used in key listings, `n` characters wide.
pub fn key_preview(public_key: &str, n: usize) -> (r: String)
    ensures
        r@ == preview_spec(public_key@, n as nat),
{
    let k = chars_of(public_key);
    let parts = split_whitespace(k.as_slice());
    if parts.len() >= 2 {
        let part = &parts[1];
        assert(char_seqs(parts@)[1] == part@);
        if part.len() > n {
            let mut r = string_of(slice_to_vec(part.as_slice(), 0, n).as_slice());
            append_str(&mut r, "...");
            r
        } else {
            string_of(part.as_slice())
        }
    } else {
        let cut = if n <= k.len() {
            n
        } else {
            k.len()
        };
        let mut r = string_of(slice_to_vec(k.as_slice(), 0, cut).as_slice());
        append_str(&mut r, "...");
        r
    }
}

} // verus!
