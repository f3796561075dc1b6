use crate::error::{missing, DecodeError, DecodeErrorView};
use crate::text::{push_char, same_text};
use vstd::prelude::*;
use vstd::string::*;

verus! {

/// The decoded fields of an action's response, as (name, text) pairs.
#[derive(Debug)]
pub struct ActionResponse {
    pub entries: Vec<(String, String)>,
}

/// The text of the first entry named `key` among `entries[..end]`.
pub open spec fn entry_in(entries: Seq<(Seq<char>, Seq<char>)>, key: Seq<char>, end: int) -> Option<
    Seq<char>,
>
    decreases end,
{
    if end <= 0 {
        None
    } else {
        match entry_in(entries, key, end - 1) {
            Some(v) => Some(v),
            None => if entries[end - 1].0 == key {
                Some(entries[end - 1].1)
            } else {
                None
            },
        }
    }
}

/// `entries` without those named `key`.
pub open spec fn entries_without(entries: Seq<(Seq<char>, Seq<char>)>, key: Seq<char>) -> Seq<
    (Seq<char>, Seq<char>),
>
    decreases entries.len(),
{
    if entries.len() == 0 {
        seq![]
    } else {
        let before = entries_without(entries.drop_last(), key);
        if entries.last().0 == key {
            before
        } else {
            before.push(entries.last())
        }
    }
}

/// Taking a named field out of a decoded response.
pub trait HashMapExt {
    /// The text of the field `key`, if there is one.
    spec fn field(&self, key: Seq<char>) -> Option<Seq<char>>;

    /// Removes the field `key` and returns its text; a missing field is an error
    /// that names it.
    fn extract(&mut self, key: &str) -> (r: Result<String, DecodeError>)
        ensures
            r is Ok <==> old(self).field(key@) is Some,
            r matches Ok(v) ==> old(self).field(key@) == Some(v@),
            r matches Err(e) ==> e@ == DecodeErrorView::MissingElement("UPnP Response"@, key@),
            final(self).field(key@) is None,
            forall|k: Seq<char>| k != key@ ==> final(self).field(k) == old(self).field(k),
    ;
}

proof fn lemma_entry_in_stays(
    entries: Seq<(Seq<char>, Seq<char>)>,
    key: Seq<char>,
    k: int,
    end: int,
)
    requires
        k <= end,
        entry_in(entries, key, k) is Some,
    ensures
        entry_in(entries, key, end) == entry_in(entries, key, k),
    decreases end - k,
{
    if end > k {
        lemma_entry_in_stays(entries, key, k, end - 1);
    }
}

proof fn lemma_entry_in_prefix(entries: Seq<(Seq<char>, Seq<char>)>, key: Seq<char>, end: int)
    requires
        0 <= end <= entries.len(),
    ensures
        entry_in(entries, key, end) == entry_in(entries.take(end), key, end),
    decreases end,
{
    if end > 0 {
        lemma_entry_in_prefix(entries, key, end - 1);
        lemma_entry_in_prefix(entries.take(end), key, end - 1);
        assert(entries.take(end).take(end - 1) == entries.take(end - 1));
    }
}

proof fn lemma_entries_without(entries: Seq<(Seq<char>, Seq<char>)>, key: Seq<char>, k: Seq<char>)
    ensures
        entry_in(entries_without(entries, key), k, entries_without(entries, key).len() as int) == (
        if k == key {
            None
        } else {
            entry_in(entries, k, entries.len() as int)
        }),
    decreases entries.len(),
{
    if entries.len() > 0 {
        let p = entries.drop_last();
        let w = entries_without(p, key);
        lemma_entries_without(p, key, k);
        lemma_entry_in_prefix(entries, k, entries.len() - 1);
        assert(entries.take(entries.len() - 1) == p);
        if entries.last().0 != key {
            let w2 = w.push(entries.last());
            lemma_entry_in_prefix(w2, k, w.len() as int);
            assert(w2.take(w.len() as int) == w);
        }
    }
}

impl HashMapExt for ActionResponse {
    open spec fn field(&self, key: Seq<char>) -> Option<Seq<char>> {
        entry_in(self.entries.deep_view(), key, self.entries@.len() as int)
    }

    fn extract(&mut self, key: &str) -> (r: Result<String, DecodeError>) {
        let ghost before = self.entries.deep_view();
        let n = self.entries.len();
        let mut kept: Vec<(String, String)> = Vec::new();
        let mut found: Option<String> = None;
        let mut i: usize = 0;
        assert(kept.deep_view() =~= Seq::<(Seq<char>, Seq<char>)>::empty());
        while i < n
            invariant
                n == self.entries@.len(),
                before == self.entries.deep_view(),
                i <= n,
                kept.deep_view() == entries_without(before.take(i as int), key@),
                found.deep_view() == entry_in(before, key@, i as int),
            decreases n - i,
        {
            let (k, v) = &self.entries[i];
            proof {
                assert(before[i as int] == (k@, v@));
                assert(before.take(i + 1).drop_last() == before.take(i as int));
                assert(before.take(i + 1).last() == before[i as int]);
            }
            if same_text(k.as_str(), key) {
                if found.is_none() {
                    found = Some(v.clone());
                } else {
                    proof {
                        lemma_entry_in_stays(before, key@, i as int, i + 1);
                    }
                }
            } else {
                kept.push((k.clone(), v.clone()));
                proof {
                    assert(kept.deep_view() == entries_without(before.take(i as int), key@).push(
                        before[i as int],
                    ));
                }
            }
            i = i + 1;
        }
        proof {
            assert(before.take(n as int) == before);
            lemma_entry_in_prefix(kept.deep_view(), key@, kept@.len() as int);
            assert forall|k: Seq<char>| true implies entry_in(
                entries_without(before, key@),
                k,
                entries_without(before, key@).len() as int,
            ) == (if k == key@ {
                None
            } else {
                entry_in(before, k, before.len() as int)
            }) by {
                lemma_entries_without(before, key@, k);
            }
        }
        self.entries = kept;
        match found {
            Some(v) => Ok(v),
            None => Err(missing("UPnP Response", key)),
        }
    }
}


impl ActionResponse {
    /// The text of the field `key`, if there is one.
    pub fn get(&self, key: &str) -> (r: Option<String>)
        ensures
            r.deep_view() == self.field(key@),
    {
        let n = self.entries.len();
        let mut i: usize = 0;
        while i < n
            invariant
                n == self.entries@.len(),
                i <= n,
                entry_in(self.entries.deep_view(), key@, i as int) is None,
            decreases n - i,
        {
            let (k, v) = &self.entries[i];
            proof {
                assert(self.entries.deep_view()[i as int] == (k@, v@));
            }
            if same_text(k.as_str(), key) {
                proof {
                    lemma_entry_in_stays(self.entries.deep_view(), key@, i + 1, n as int);
                }
                return Some(v.clone());
            }
            i = i + 1;
        }
        None
    }
}


/// `c` as it stands in the text of an XML element: `&`, `<` and `>` are escaped.
pub open spec fn escape_char(c: char) -> Seq<char> {
    if c == '&' {
        "&amp;"@
    } else if c == '<' {
        "&lt;"@
    } else if c == '>' {
        "&gt;"@
    } else {
        seq![c]
    }
}

/// `s` as it stands in the text of an XML element.
pub open spec fn escaped(s: Seq<char>) -> Seq<char>
    decreases s.len(),
{
    if s.len() == 0 {
        seq![]
    } else {
        escaped(s.drop_last()) + escape_char(s.last())
    }
}

/// One argument on the wire: `<name>value</name>`.
pub open spec fn arg_text(name: Seq<char>, value: Seq<char>) -> Seq<char> {
    seq!['<'] + name + seq!['>'] + escaped(value) + seq!['<', '/'] + name + seq!['>']
}

/// The wire payload of an ordered list of (name, value) arguments: each argument
/// in turn, with nothing between them.
pub open spec fn args_text(args: Seq<(Seq<char>, Seq<char>)>) -> Seq<char>
    decreases args.len(),
{
    if args.len() == 0 {
        seq![]
    } else {
        args_text(args.drop_last()) + arg_text(args.last().0, args.last().1)
    }
}

fn push_escaped(out: &mut String, value: &str)
    ensures
        final(out)@ == old(out)@ + escaped(value@),
{
    let n = value.unicode_len();
    let mut i: usize = 0;
    while i < n
        invariant
            n == value@.len(),
            i <= n,
            out@ == old(out)@ + escaped(value@.take(i as int)),
        decreases n - i,
    {
        let c = value.get_char(i);
        if c == '&' {
            out.append("&amp;");
        } else if c == '<' {
            out.append("&lt;");
        } else if c == '>' {
            out.append("&gt;");
        } else {
            push_char(out, c);
        }
        proof {
            assert(value@.take(i + 1).drop_last() == value@.take(i as int));
            assert(value@.take(i + 1).last() == c);
        }
        i = i + 1;
    }
    assert(value@.take(n as int) == value@);
}

/// Encodes ordered (name, value) arguments into an action's payload. Values are
/// escaped as XML text, so that any text (metadata documents among them) arrives
/// as the text it is.
pub fn encode_args(args: &Vec<(String, String)>) -> (r: String)
    ensures
        r@ == args_text(args.deep_view()),
{
    let ghost av = args.deep_view();
    let mut out = String::new();
    let mut i: usize = 0;
    while i < args.len()
        invariant
            av == args.deep_view(),
            i <= args@.len(),
            out@ == args_text(av.take(i as int)),
        decreases args@.len() - i,
    {
        let (name, value) = &args[i];
        push_char(&mut out, '<');
        out.append(name.as_str());
        push_char(&mut out, '>');
        push_escaped(&mut out, value.as_str());
        push_char(&mut out, '<');
        push_char(&mut out, '/');
        out.append(name.as_str());
        push_char(&mut out, '>');
        proof {
            assert(av[i as int] == (name@, value@));
            assert(av.take(i + 1).drop_last() == av.take(i as int));
            assert(av.take(i + 1).last() == av[i as int]);
            assert(out@ =~= args_text(av.take(i as int)) + arg_text(name@, value@));
        }
        i = i + 1;
    }
    assert(av.take(args@.len() as int) == av);
    out
}

} // verus!
