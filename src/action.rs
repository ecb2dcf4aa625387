use vstd::prelude::*;
use vstd::string::StringExecFns;

verus! {


/// The character of the decimal digit `d`.
pub open spec fn digit_char(d: nat) -> char {
    if d == 0 {
        '0'
    } else if d == 1 {
        '1'
    } else if d == 2 {
        '2'
    } else if d == 3 {
        '3'
    } else if d == 4 {
        '4'
    } else if d == 5 {
        '5'
    } else if d == 6 {
        '6'
    } else if d == 7 {
        '7'
    } else if d == 8 {
        '8'
    } else {
        '9'
    }
}

/// The lower-case hexadecimal digit of `d`.
pub open spec fn hex_char(d: nat) -> char {
    if d < 10 {
        digit_char(d)
    } else if d == 10 {
        'a'
    } else if d == 11 {
        'b'
    } else if d == 12 {
        'c'
    } else if d == 13 {
        'd'
    } else if d == 14 {
        'e'
    } else {
        'f'
    }
}

/// How serde_json writes the character `c` inside a string literal: a
/// quote and a backslash get a backslash before them, a control character
/// below U+0020 becomes its short escape or `\u00` and two lower-case hex
/// digits, and every other character stands as it is.
pub open spec fn escaped_char(c: char) -> Seq<char> {
    let u = c as u32;
    if c == '"' {
        seq!['\\', '"']
    } else if c == '\\' {
        seq!['\\', '\\']
    } else if u == 0x8 {
        seq!['\\', 'b']
    } else if u == 0x9 {
        seq!['\\', 't']
    } else if u == 0xa {
        seq!['\\', 'n']
    } else if u == 0xc {
        seq!['\\', 'f']
    } else if u == 0xd {
        seq!['\\', 'r']
    } else if u < 0x20 {
        seq!['\\', 'u', '0', '0', hex_char((u / 16) as nat), hex_char((u % 16) as nat)]
    } else {
        seq![c]
    }
}

/// The characters of `s`, each written as `escaped_char` gives it.
pub open spec fn escaped(s: Seq<char>) -> Seq<char>
    decreases s.len(),
{
    if s.len() == 0 {
        Seq::empty()
    } else {
        escaped(s.drop_last()) + escaped_char(s.last())
    }
}

/// The JSON string literal that serde_json writes for the text `s`.
pub open spec fn json_quoted(s: Seq<char>) -> Seq<char> {
    seq!['"'] + escaped(s) + seq!['"']
}

/// The decimal digits of `n`, without leading zeros.
pub open spec fn decimal(n: nat) -> Seq<char>
    decreases n,
{
    if n < 10 {
        seq![digit_char(n)]
    } else {
        decimal(n / 10).push(digit_char(n % 10))
    }
}

/// Relies on serde_json's `Display` for a string value: it writes the
/// value as one JSON string literal, escaped as `escaped_char` states, and
/// cannot fail on a string.
#[verifier::external_body]
fn quote(s: &str) -> (r: String)
    ensures
        r@ == json_quoted(s@),
{
    serde_json::Value::String(s.to_string()).to_string()
}

/// The text of the decimal digit `d`.
fn digit_text(d: u64) -> (r: &'static str)
    requires
        d < 10,
    ensures
        r@ == seq![digit_char(d as nat)],
{
    proof {
        reveal_strlit("0");
        reveal_strlit("1");
        reveal_strlit("2");
        reveal_strlit("3");
        reveal_strlit("4");
        reveal_strlit("5");
        reveal_strlit("6");
        reveal_strlit("7");
        reveal_strlit("8");
        reveal_strlit("9");
    }
    if d == 0 {
        "0"
    } else if d == 1 {
        "1"
    } else if d == 2 {
        "2"
    } else if d == 3 {
        "3"
    } else if d == 4 {
        "4"
    } else if d == 5 {
        "5"
    } else if d == 6 {
        "6"
    } else if d == 7 {
        "7"
    } else if d == 8 {
        "8"
    } else {
        "9"
    }
}

/// Appends the decimal digits of `n`.
fn write_decimal(out: &mut String, n: u64)
    ensures
        final(out)@ == old(out)@ + decimal(n as nat),
    decreases n,
{
    if n >= 10 {
        write_decimal(out, n / 10);
    }
    out.append(digit_text(n % 10));
    assert(out@ =~= old(out)@ + decimal(n as nat));
}

/// A workspace, named by identifier, by index, or by name.
pub enum WorkspaceRef {
    Id(u64),
    Index(u8),
    Name(String),
}

/// Where to switch the keyboard layout.
pub enum LayoutTarget {
    Next,
    Prev,
    Index(u8),
}

/// How a column shows its windows.
pub enum ColumnMode {
    Normal,
    Tabbed,
}

/// The value of one named parameter of an action.
pub enum Arg {
    /// No value: the action applies to the focused target.
    Null,
    Bool(bool),
    UInt(u64),
    Str(String),
    StrList(Vec<String>),
    Workspace(WorkspaceRef),
    Layout(LayoutTarget),
    Display(ColumnMode),
}

/// One imperative action: a verb and its named parameters, in order.
pub struct Action {
    pub verb: String,
    pub fields: Vec<(String, Arg)>,
}

/// `parts` separated by commas.
pub open spec fn joined(parts: Seq<Seq<char>>) -> Seq<char>
    decreases parts.len(),
{
    if parts.len() == 0 {
        Seq::empty()
    } else if parts.len() == 1 {
        parts[0]
    } else {
        joined(parts.drop_last()) + ","@ + parts.last()
    }
}

/// The JSON text of a workspace reference: an externally tagged variant.
pub open spec fn workspace_text(w: WorkspaceRef) -> Seq<char> {
    match w {
        WorkspaceRef::Id(n) => "{\"Id\":"@ + decimal(n as nat) + "}"@,
        WorkspaceRef::Index(k) => "{\"Index\":"@ + decimal(k as nat) + "}"@,
        WorkspaceRef::Name(s) => "{\"Name\":"@ + json_quoted(s@) + "}"@,
    }
}

/// The JSON text of a layout target.
pub open spec fn layout_text(t: LayoutTarget) -> Seq<char> {
    match t {
        LayoutTarget::Next => "\"Next\""@,
        LayoutTarget::Prev => "\"Prev\""@,
        LayoutTarget::Index(k) => "{\"Index\":"@ + decimal(k as nat) + "}"@,
    }
}

/// The JSON text of a column display mode.
pub open spec fn column_mode_text(m: ColumnMode) -> Seq<char> {
    match m {
        ColumnMode::Normal => "\"Normal\""@,
        ColumnMode::Tabbed => "\"Tabbed\""@,
    }
}

/// The JSON string literals of `v`.
pub open spec fn quoted_all(v: Seq<String>) -> Seq<Seq<char>> {
    v.map_values(|s: String| json_quoted(s@))
}

/// The JSON text of a parameter value.
pub open spec fn arg_text(a: Arg) -> Seq<char> {
    match a {
        Arg::Null => "null"@,
        Arg::Bool(b) => if b {
            "true"@
        } else {
            "false"@
        },
        Arg::UInt(n) => decimal(n as nat),
        Arg::Str(s) => json_quoted(s@),
        Arg::StrList(v) => "["@ + joined(quoted_all(v@)) + "]"@,
        Arg::Workspace(w) => workspace_text(w),
        Arg::Layout(t) => layout_text(t),
        Arg::Display(m) => column_mode_text(m),
    }
}

/// The JSON text of one named parameter.
pub open spec fn member_text(f: (String, Arg)) -> Seq<char> {
    json_quoted(f.0@) + ":"@ + arg_text(f.1)
}

/// The JSON text of the parameters, in order.
pub open spec fn members_text(fields: Seq<(String, Arg)>) -> Seq<char> {
    joined(fields.map_values(|f: (String, Arg)| member_text(f)))
}

/// The newline-free JSON document that carries an action:
/// `{"Action":{"<verb>":{<parameters>}}}`.
pub open spec fn action_text(a: Action) -> Seq<char> {
    "{\"Action\":{"@ + json_quoted(a.verb@) + ":{"@ + members_text(a.fields@) + "}}}"@
}

proof fn lemma_joined_extend(parts: Seq<Seq<char>>, i: int)
    requires
        0 <= i < parts.len(),
    ensures
        joined(parts.take(i + 1)) == if i == 0 {
            parts[0]
        } else {
            joined(parts.take(i)) + ","@ + parts[i]
        },
{
    assert(parts.take(i + 1).drop_last() =~= parts.take(i));
}

/// Appends the JSON string literals of `v`, separated by commas.
fn write_quoted_list(out: &mut String, v: &Vec<String>)
    ensures
        final(out)@ == old(out)@ + joined(quoted_all(v@)),
{
    let ghost start = out@;
    let ghost parts = quoted_all(v@);
    let n = v.len();
    let mut i: usize = 0;
    assert(parts.take(0) =~= Seq::<Seq<char>>::empty());
    assert(start =~= start + joined(parts.take(0)));
    while i < n
        invariant
            n == v@.len(),
            parts == quoted_all(v@),
            i <= n,
            out@ == start + joined(parts.take(i as int)),
        decreases n - i,
    {
        proof {
            lemma_joined_extend(parts, i as int);
        }
        if i > 0 {
            out.append(",");
        }
        let q = quote(v[i].as_str());
        out.append(q.as_str());
        assert(out@ =~= start + joined(parts.take(i + 1)));
        i = i + 1;
    }
    assert(parts.take(n as int) =~= parts);
}

/// Appends the JSON text of `a`.
fn write_arg(out: &mut String, a: &Arg)
    ensures
        final(out)@ == old(out)@ + arg_text(*a),
{
    match a {
        Arg::Null => out.append("null"),
        Arg::Bool(b) => if *b {
            out.append("true")
        } else {
            out.append("false")
        },
        Arg::UInt(n) => {
            write_decimal(out, *n);
        },
        Arg::Str(s) => {
            let q = quote(s.as_str());
            out.append(q.as_str());
        },
        Arg::StrList(v) => {
            let ghost start = out@;
            out.append("[");
            write_quoted_list(out, v);
            out.append("]");
            assert(out@ =~= start + arg_text(*a));
        },
        Arg::Workspace(w) => {
            let ghost start = out@;
            match w {
                WorkspaceRef::Id(n) => {
                    out.append("{\"Id\":");
                    write_decimal(out, *n);
                },
                WorkspaceRef::Index(k) => {
                    out.append("{\"Index\":");
                    write_decimal(out, *k as u64);
                },
                WorkspaceRef::Name(s) => {
                    out.append("{\"Name\":");
                    let q = quote(s.as_str());
                    out.append(q.as_str());
                },
            }
            out.append("}");
            assert(out@ =~= start + arg_text(*a));
        },
        Arg::Layout(t) => match t {
            LayoutTarget::Next => out.append("\"Next\""),
            LayoutTarget::Prev => out.append("\"Prev\""),
            LayoutTarget::Index(k) => {
                let ghost start = out@;
                out.append("{\"Index\":");
                write_decimal(out, *k as u64);
                out.append("}");
                assert(out@ =~= start + arg_text(*a));
            },
        },
        Arg::Display(m) => match m {
            ColumnMode::Normal => out.append("\"Normal\""),
            ColumnMode::Tabbed => out.append("\"Tabbed\""),
        },
    }
}

impl Action {
    /// An action with the verb `verb` and no parameters yet.
    pub fn new(verb: &str) -> (r: Action)
        ensures
            r.verb@ == verb@,
            r.fields@.len() == 0,
    {
        Action { verb: String::from_str(verb), fields: Vec::new() }
    }

    /// The action with the parameter `key` set to `arg` after the others.
    pub fn with(self, key: &str, arg: Arg) -> (r: Action)
        ensures
            r.verb == self.verb,
            r.fields@.len() == self.fields@.len() + 1,
            r.fields@.take(self.fields@.len() as int) == self.fields@,
            r.fields@.last().0@ == key@,
            r.fields@.last().1 == arg,
    {
        let mut fields = self.fields;
        fields.push((String::from_str(key), arg));
        assert(fields@.take(self.fields@.len() as int) =~= self.fields@);
        Action { verb: self.verb, fields }
    }

    /// The JSON document that carries this action, without a newline.
    pub fn encode(&self) -> (r: String)
        ensures
            r@ == action_text(*self),
    {
        let ghost parts = self.fields@.map_values(|f: (String, Arg)| member_text(f));
        let mut out = String::from_str("{\"Action\":{");
        let q = quote(self.verb.as_str());
        out.append(q.as_str());
        out.append(":{");
        let ghost start = out@;
        let n = self.fields.len();
        let mut i: usize = 0;
        assert(parts.take(0) =~= Seq::<Seq<char>>::empty());
        assert(start =~= start + joined(parts.take(0)));
        while i < n
            invariant
                n == self.fields@.len(),
                parts == self.fields@.map_values(|f: (String, Arg)| member_text(f)),
                i <= n,
                out@ == start + joined(parts.take(i as int)),
            decreases n - i,
        {
            proof {
                lemma_joined_extend(parts, i as int);
            }
            if i > 0 {
                out.append(",");
            }
            let k = quote(self.fields[i].0.as_str());
            out.append(k.as_str());
            out.append(":");
            write_arg(&mut out, &self.fields[i].1);
            assert(parts[i as int] == member_text(self.fields@[i as int]));
            assert(out@ =~= start + joined(parts.take(i + 1)));
            i = i + 1;
        }
        assert(parts.take(n as int) =~= parts);
        out.append("}}}");
        assert(out@ =~= action_text(*self));
        out
    }
}

} // verus!
