//! A key-value configuration, read from and written to `key=value` lines.

use vstd::prelude::*;
use vstd::string::StringSliceAdditionalSpecFns;
use vstd::utf8::encode_utf8;

use crate::text::{find_char, find_from, lemma_find_from_bounds};

verus! {

/// A list of `(key, value)` pairs; lookups take the first pair with the key.
pub struct Config {
    values: Vec<(String, String)>,
}

/// Reads and writes configurations as `key=value` lines.
pub struct KeyValueConfigService {}

/// The texts of a list of pairs.
pub open spec fn pair_texts(v: Seq<(String, String)>) -> Seq<(Seq<char>, Seq<char>)> {
    v.map_values(|p: (String, String)| (p.0@, p.1@))
}

impl View for Config {
    type V = Seq<(Seq<char>, Seq<char>)>;

    closed spec fn view(&self) -> Seq<(Seq<char>, Seq<char>)> {
        pair_texts(self.values@)
    }
}

/// The value of the first pair with key `key`.
pub open spec fn first_value(pairs: Seq<(Seq<char>, Seq<char>)>, key: Seq<char>) -> Option<Seq<char>>
    decreases pairs.len(),
{
    if pairs.len() == 0 {
        None
    } else if pairs[0].0 == key {
        Some(pairs[0].1)
    } else {
        first_value(pairs.drop_first(), key)
    }
}

/// The bytes of one `key=value` line.
pub open spec fn line_bytes(pair: (Seq<char>, Seq<char>)) -> Seq<u8> {
    encode_utf8(pair.0) + seq![0x3Du8] + encode_utf8(pair.1) + seq![0x0Au8]
}

/// The bytes of all lines, in order.
pub open spec fn config_bytes(pairs: Seq<(Seq<char>, Seq<char>)>) -> Seq<u8>
    decreases pairs.len(),
{
    if pairs.len() == 0 {
        seq![]
    } else {
        config_bytes(pairs.drop_last()) + line_bytes(pairs.last())
    }
}

/// The pieces of `t` between line feeds (one more than there are line feeds).
pub open spec fn split_lines(t: Seq<char>) -> Seq<Seq<char>>
    decreases t.len(),
{
    if t.len() == 0 {
        seq![seq![]]
    } else {
        let prev = split_lines(t.drop_last());
        if t.last() == '\n' {
            prev.push(seq![])
        } else {
            prev.update(prev.len() - 1, prev.last().push(t.last()))
        }
    }
}

/// The pair a trimmed line stands for: it needs an `=` that is neither its
/// first nor its last character; the key is what precedes the first `=`, the
/// value what follows it up to the next `=`.
pub open spec fn line_entry(t: Seq<char>) -> Option<(Seq<char>, Seq<char>)> {
    let i = find_from(t, '=', 0);
    if 0 < i && i < t.len() - 1 {
        Some((t.subrange(0, i), t.subrange(i + 1, find_from(t, '=', i + 1))))
    } else {
        None
    }
}

/// What `str::trim` gives for the characters `s`.
pub uninterp spec fn trim_of(s: Seq<char>) -> Seq<char>;

/// The pairs that the lines `ls` stand for, after trimming each.
pub open spec fn entries_of(ls: Seq<Seq<char>>) -> Seq<(Seq<char>, Seq<char>)>
    decreases ls.len(),
{
    if ls.len() == 0 {
        seq![]
    } else {
        entries_of(ls.drop_last()) + match line_entry(trim_of(ls.last())) {
            Some(e) => seq![e],
            None => seq![],
        }
    }
}

/// Relies on `str::trim`: the result depends on the characters alone.
#[verifier::external_body]
fn trim(s: &str) -> (r: &str)
    ensures
        r@ == trim_of(s@),
{
    s.trim()
}

/// Relies on `io::Write::write_all`: hands `bytes` to the writer.
#[verifier::external_body]
fn write_all<W: std::io::Write>(to: &mut W, bytes: &[u8]) -> std::io::Result<()> {
    to.write_all(bytes)
}

/// Relies on `io::Read::read_to_string`: what the reader holds, as text.
#[verifier::external_body]
fn read_to_string<R: std::io::Read>(from: &mut R) -> std::io::Result<String> {
    let mut buffer = String::new();
    from.read_to_string(&mut buffer).map(|_| buffer)
}

/// The pair a trimmed line stands for, if any.
pub fn parse_entry(line: &str) -> (r: Option<(String, String)>)
    ensures
        match line_entry(line@) {
            Some(e) => r is Some && r->Some_0.0@ == e.0 && r->Some_0.1@ == e.1,
            None => r is None,
        },
{
    let n = line.unicode_len();
    let i = find_char(line, '=', 0);
    if 0 < i && i < n && i < n - 1 {
        let j = find_char(line, '=', i + 1);
        proof {
            lemma_find_from_bounds(line@, '=', i + 1);
        }
        let key = String::from_str(line.substring_char(0, i));
        let value = String::from_str(line.substring_char(i + 1, j));
        Some((key, value))
    } else {
        None
    }
}

impl Config {
    /// A configuration of the given pairs.
    pub fn new(values: Vec<(String, String)>) -> (r: Config)
        ensures
            r@ == pair_texts(values@),
    {
        Config { values: values }
    }

    /// The value of the first pair whose key is `key`.
    pub fn lookup(&self, key: &str) -> (r: Option<String>)
        ensures
            match first_value(self@, key@) {
                Some(v) => r is Some && r->Some_0@ == v,
                None => r is None,
            },
    {
        let mut i: usize = 0;
        assert(self@.skip(0) =~= self@);
        while i < self.values.len()
            invariant
                i <= self@.len(),
                first_value(self@, key@) == first_value(self@.skip(i as int), key@),
            decreases self@.len() - i,
        {
            let ghost rest = self@.skip(i as int);
            if crate::matching::same_text(self.values[i].0.as_str(), key) {
                return Some(self.values[i].1.clone());
            }
            assert(rest.drop_first() =~= self@.skip(i + 1));
            i = i + 1;
        }
        None
    }

    /// The `key=value` lines of all pairs, in order, as bytes.
    pub fn render(&self) -> (r: Vec<u8>)
        ensures
            r@ == config_bytes(self@),
    {
        let mut out: Vec<u8> = Vec::new();
        let mut i: usize = 0;
        while i < self.values.len()
            invariant
                i <= self@.len(),
                out@ == config_bytes(self@.take(i as int)),
            decreases self@.len() - i,
        {
            let k = self.values[i].0.as_str().as_bytes();
            let v = self.values[i].1.as_str().as_bytes();
            push_bytes(&mut out, k);
            out.push(0x3Du8);
            push_bytes(&mut out, v);
            out.push(0x0Au8);
            assert(self@.take(i + 1).drop_last() =~= self@.take(i as int));
            assert(out@ =~= config_bytes(self@.take(i + 1)));
            i = i + 1;
        }
        assert(self@.take(self@.len() as int) =~= self@);
        out
    }

    /// The pairs that the lines of `text` stand for, each line trimmed.
    pub fn parse(text: &str) -> (r: Config)
        ensures
            r@ == entries_of(split_lines(text@)),
    {
        let n = text.unicode_len();
        let mut values: Vec<(String, String)> = Vec::new();
        let mut start: usize = 0;
        let mut i: usize = 0;
        while i < n
            invariant
                n == text@.len(),
                start <= i <= n,
                split_lines(text@.take(i as int)).len() > 0,
                split_lines(text@.take(i as int)).last() == text@.subrange(start as int, i as int),
                pair_texts(values@) == entries_of(split_lines(text@.take(i as int)).drop_last()),
            decreases n - i,
        {
            let ghost before = split_lines(text@.take(i as int));
            assert(text@.take(i + 1).drop_last() =~= text@.take(i as int));
            if text.get_char(i) == '\n' {
                let line = text.substring_char(start, i);
                match parse_entry(trim(line)) {
                    Some(e) => {
                        values.push(e);
                    },
                    None => {},
                }
                assert(split_lines(text@.take(i + 1)).drop_last() =~= before);
                assert(pair_texts(values@) =~= entries_of(before));
                start = i + 1;
            } else {
                assert(split_lines(text@.take(i + 1)).drop_last() =~= before.drop_last());
            }
            assert(split_lines(text@.take(i + 1)).last() =~= text@.subrange(start as int, i + 1));
            i = i + 1;
        }
        assert(text@.take(n as int) =~= text@);
        let line = text.substring_char(start, n);
        let ghost all = split_lines(text@);
        match parse_entry(trim(line)) {
            Some(e) => {
                values.push(e);
            },
            None => {},
        }
        assert(all.drop_last().push(all.last()) =~= all);
        assert(pair_texts(values@) =~= entries_of(all));
        Config { values }
    }
}

/// Appends `b` to `out`.
fn push_bytes(out: &mut Vec<u8>, b: &[u8])
    ensures
        final(out)@ == old(out)@ + b@,
{
    let mut i: usize = 0;
    while i < b.len()
        invariant
            i <= b@.len(),
            out@ == old(out)@ + b@.take(i as int),
        decreases b@.len() - i,
    {
        out.push(b[i]);
        assert(b@.take(i + 1) =~= b@.take(i as int).push(b@[i as int]));
        i = i + 1;
    }
    assert(b@.take(b@.len() as int) =~= b@);
}

impl KeyValueConfigService {
    pub fn new() -> KeyValueConfigService {
        KeyValueConfigService {}
    }
}

/// Looks a key up.
pub trait ValueGetter {
    fn get(&self, key: &str) -> Option<String>;
}

impl ValueGetter for Config {
    /// `lookup`: the value of the first pair with the key.
    fn get(&self, s: &str) -> Option<String> {
        self.lookup(s)
    }
}

/// Writes a configuration.
pub trait ConfigWriter {
    fn write<W: std::io::Write>(&self, config: Config, to: &mut W) -> std::io::Result<()>;
}

impl ConfigWriter for KeyValueConfigService {
    /// Writes the bytes of `config.render()`.
    fn write<W: std::io::Write>(&self, config: Config, to: &mut W) -> std::io::Result<()> {
        let bytes = config.render();
        write_all(to, bytes.as_slice())
    }
}

/// Reads a configuration.
pub trait ConfigReader {
    fn read<R: std::io::Read>(&self, from: &mut R) -> std::io::Result<Config>;
}

impl ConfigReader for KeyValueConfigService {
    /// Reads all text from `from` and returns `Config::parse` of it.
    fn read<R: std::io::Read>(&self, from: &mut R) -> std::io::Result<Config> {
        match read_to_string(from) {
            Ok(text) => Ok(Config::parse(text.as_str())),
            Err(e) => Err(e),
        }
    }
}

} // verus!
