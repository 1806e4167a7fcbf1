//! The backup codec: a flat `key=value` text snapshot of the two
//! identity keys of the global configuration. One line per present
//! key, separated by newlines, with no escaping; a line is applied on
//! restore only when it contains exactly one `=`, and is silently
//! skipped otherwise.

use vstd::prelude::*;

use crate::config::{config_get, user_email_key, user_name_key, ConfigState};
use crate::text::find_char_exec;

verus! {

/// Number of occurrences of `c` in `s`.
pub open spec fn count_char(s: Seq<char>, c: char) -> nat
    decreases s.len(),
{
    if s.len() == 0 {
        0
    } else {
        (if s[0] == c {
            1nat
        } else {
            0nat
        }) + count_char(s.skip(1), c)
    }
}

/// The position of the first occurrence of `c` in `s` (`s.len()` if
/// there is none).
pub open spec fn find_char(s: Seq<char>, c: char) -> int
    decreases s.len(),
{
    if s.len() == 0 {
        0
    } else if s[0] == c {
        0
    } else {
        1 + find_char(s.skip(1), c)
    }
}

/// What one backup line means: a `(key, value)` pair split at the `=`
/// when the line holds exactly one `=`, and nothing otherwise.
pub open spec fn parse_line(l: Seq<char>) -> Option<(Seq<char>, Seq<char>)> {
    if count_char(l, '=') == 1 {
        Some((l.take(find_char(l, '=')), l.skip(find_char(l, '=') + 1)))
    } else {
        None
    }
}

/// The lines of a text: the segments between newlines, in order. A
/// text with no newline is a single line, so there is always at least
/// one segment.
pub open spec fn split_lines(s: Seq<char>) -> Seq<Seq<char>>
    decreases s.len(),
{
    if s.len() == 0 {
        seq![Seq::<char>::empty()]
    } else if s[0] == '\n' {
        seq![Seq::<char>::empty()] + split_lines(s.skip(1))
    } else {
        let rest = split_lines(s.skip(1));
        seq![seq![s[0]] + rest[0]] + rest.skip(1)
    }
}

/// Applying one line to a configuration map: a valid line writes its
/// pair, a malformed line changes nothing.
pub open spec fn apply_line(m: Map<Seq<char>, Seq<char>>, l: Seq<char>) -> Map<
    Seq<char>,
    Seq<char>,
> {
    match parse_line(l) {
        Some(p) => m.insert(p.0, p.1),
        None => m,
    }
}

/// Applying lines in file order: on a repeated key the last line wins.
pub open spec fn apply_lines(m: Map<Seq<char>, Seq<char>>, lines: Seq<Seq<char>>) -> Map<
    Seq<char>,
    Seq<char>,
>
    decreases lines.len(),
{
    if lines.len() == 0 {
        m
    } else {
        apply_lines(apply_line(m, lines[0]), lines.skip(1))
    }
}

/// The configuration map after restoring the text `s` over `m`.
pub open spec fn restore_map(m: Map<Seq<char>, Seq<char>>, s: Seq<char>) -> Map<
    Seq<char>,
    Seq<char>,
> {
    apply_lines(m, split_lines(s))
}

/// One backup line of the text written for `key` and `value`.
pub open spec fn line_text(key: Seq<char>, value: Seq<char>) -> Seq<char> {
    key + seq!['='] + value + seq!['\n']
}

/// The whole backup text: one line per present identity key, and no
/// line at all for an unset one.
pub open spec fn backup_text(name: Option<Seq<char>>, email: Option<Seq<char>>) -> Seq<char> {
    (match name {
        Some(n) => line_text(user_name_key(), n),
        None => Seq::<char>::empty(),
    }) + (match email {
        Some(e) => line_text(user_email_key(), e),
        None => Seq::<char>::empty(),
    })
}

/// Applying a single line is one application.
pub proof fn lemma_apply_lines_single(m: Map<Seq<char>, Seq<char>>, l: Seq<char>)
    ensures
        apply_lines(m, seq![l]) == apply_line(m, l),
{
    assert(seq![l][0] == l);
    assert(seq![l].skip(1) =~= Seq::<Seq<char>>::empty());
    assert(apply_lines(apply_line(m, l), Seq::<Seq<char>>::empty()) == apply_line(m, l));
}

/// Splits one line at its `=`, if the line holds exactly one.
pub fn parse_line_exec(l: &str) -> (r: Option<(String, String)>)
    ensures
        match parse_line(l@) {
            Some(p) => r matches Some(q) && q.0@ == p.0 && q.1@ == p.1,
            None => r is None,
        },
{
    let n = l.unicode_len();
    match find_char_exec(l, '=') {
        None => {
            proof {
                lemma_count_zero_iff(l@, '=');
            }
            None
        },
        Some(i) => {
            let tail = l.substring_char(i + 1, n);
            proof {
                assert(tail@ =~= l@.skip(i + 1));
                lemma_first_at(l@, '=', i as int);
                lemma_count_zero_iff(tail@, '=');
            }
            match find_char_exec(tail, '=') {
                Some(_) => None,
                None => {
                    let key = l.substring_char(0, i);
                    proof {
                        assert(key@ =~= l@.take(i as int));
                    }
                    Some((key.to_owned(), tail.to_owned()))
                },
            }
        },
    }
}

/// Applies one backup line to the configuration model.
fn apply_line_exec(cfg: &mut ConfigState, line: &str)
    requires
        old(cfg).wf(),
    ensures
        final(cfg).wf(),
        final(cfg)@ == apply_line(old(cfg)@, line@),
{
    match parse_line_exec(line) {
        Some(kv) => {
            cfg.set(kv.0.as_str(), kv.1.as_str());
        },
        None => {},
    }
}

/// Restores a backup text over the configuration model: each line
/// with exactly one `=` writes its pair in file order; any other line
/// is skipped without error.
pub fn restore_config(cfg: &mut ConfigState, content: &str)
    requires
        old(cfg).wf(),
    ensures
        final(cfg).wf(),
        final(cfg)@ == restore_map(old(cfg)@, content@),
    decreases content@.len(),
{
    let n = content.unicode_len();
    match find_char_exec(content, '\n') {
        None => {
            apply_line_exec(cfg, content);
            proof {
                lemma_split_lines_no_nl(content@);
                lemma_apply_lines_single(old(cfg)@, content@);
            }
        },
        Some(i) => {
            let line = content.substring_char(0, i);
            let rest = content.substring_char(i + 1, n);
            apply_line_exec(cfg, line);
            restore_config(cfg, rest);
            proof {
                assert(line@ =~= content@.take(i as int));
                assert(rest@ =~= content@.skip(i as int + 1));
                lemma_split_lines_at(content@, i as int);
                lemma_apply_lines_cons(
                    old(cfg)@,
                    content@.take(i as int),
                    split_lines(content@.skip(i as int + 1)),
                );
            }
        },
    }
}

/// Serializes the present identity keys of the configuration as
/// backup text: one `key=value` line per present key, and no line for
/// an unset one.
pub fn backup_config(cfg: &ConfigState) -> (r: String)
    requires
        cfg.wf(),
    ensures
        r@ == backup_text(config_get(cfg@, user_name_key()), config_get(cfg@, user_email_key())),
{
    let mut out = String::new();
    if let Some(n) = cfg.get("user.name") {
        out.append("user.name");
        out.append("=");
        out.append(n.as_str());
        out.append("\n");
    }
    if let Some(e) = cfg.get("user.email") {
        out.append("user.email");
        out.append("=");
        out.append(e.as_str());
        out.append("\n");
    }
    proof {
        reveal_strlit("=");
        reveal_strlit("\n");
        assert("="@ =~= seq!['=']);
        assert("\n"@ =~= seq!['\n']);
        assert(out@ =~= backup_text(
            config_get(cfg@, user_name_key()),
            config_get(cfg@, user_email_key()),
        ));
    }
    out
}

/// A character is absent exactly when its count is zero.
pub proof fn lemma_count_zero_iff(s: Seq<char>, c: char)
    ensures
        count_char(s, c) == 0 <==> forall|j: int| 0 <= j < s.len() ==> s[j] != c,
    decreases s.len(),
{
    if s.len() > 0 {
        lemma_count_zero_iff(s.skip(1), c);
        assert(forall|j: int| 0 <= j < s.skip(1).len() ==> s.skip(1)[j] == s[j + 1]);
        if s[0] != c && count_char(s.skip(1), c) == 0 {
            assert forall|j: int| 0 <= j < s.len() implies s[j] != c by {
                if j > 0 {
                    assert(s.skip(1)[j - 1] != c);
                }
            }
        }
    }
}

/// Counts add up over concatenation.
pub proof fn lemma_count_append(a: Seq<char>, b: Seq<char>, c: char)
    ensures
        count_char(a + b, c) == count_char(a, c) + count_char(b, c),
    decreases a.len(),
{
    if a.len() == 0 {
        assert(a + b =~= b);
    } else {
        assert((a + b)[0] == a[0]);
        assert((a + b).skip(1) =~= a.skip(1) + b);
        lemma_count_append(a.skip(1), b, c);
    }
}

/// At the first occurrence of `c`, the count splits into one plus the
/// count of the remainder, and `find_char` points there.
pub proof fn lemma_first_at(s: Seq<char>, c: char, i: int)
    requires
        0 <= i < s.len(),
        s[i] == c,
        forall|j: int| 0 <= j < i ==> s[j] != c,
    ensures
        find_char(s, c) == i,
        count_char(s, c) == 1 + count_char(s.skip(i + 1), c),
    decreases i,
{
    if i == 0 {
        assert(s.skip(1) =~= s.skip(i + 1));
    } else {
        let t = s.skip(1);
        assert(forall|j: int| 0 <= j < t.len() ==> t[j] == s[j + 1]);
        lemma_first_at(t, c, i - 1);
        assert(t.skip(i) =~= s.skip(i + 1));
    }
}

/// A text without a newline is one single line.
pub proof fn lemma_split_lines_no_nl(s: Seq<char>)
    requires
        forall|j: int| 0 <= j < s.len() ==> s[j] != '\n',
    ensures
        split_lines(s) == seq![s],
    decreases s.len(),
{
    if s.len() == 0 {
        assert(split_lines(s) =~~= seq![s]);
    } else {
        let t = s.skip(1);
        assert(forall|j: int| 0 <= j < t.len() ==> t[j] == s[j + 1]);
        lemma_split_lines_no_nl(t);
        assert(seq![s[0]] + t =~= s);
        assert(split_lines(s) =~~= seq![s]);
    }
}

/// Splitting at the first newline: the text up to it is the first
/// line, and the rest of the text gives the remaining lines.
pub proof fn lemma_split_lines_at(s: Seq<char>, i: int)
    requires
        0 <= i < s.len(),
        s[i] == '\n',
        forall|j: int| 0 <= j < i ==> s[j] != '\n',
    ensures
        split_lines(s) == seq![s.take(i)] + split_lines(s.skip(i + 1)),
    decreases i,
{
    if i == 0 {
        assert(s.take(0) =~= Seq::<char>::empty());
        assert(s.skip(1) =~= s.skip(i + 1));
        assert(split_lines(s) =~~= seq![s.take(i)] + split_lines(s.skip(i + 1)));
    } else {
        let t = s.skip(1);
        assert(forall|j: int| 0 <= j < t.len() ==> t[j] == s[j + 1]);
        lemma_split_lines_at(t, i - 1);
        let rest = split_lines(t);
        assert(rest == seq![t.take(i - 1)] + split_lines(t.skip(i)));
        assert(rest[0] == t.take(i - 1));
        assert(seq![s[0]] + t.take(i - 1) =~= s.take(i));
        assert(rest.skip(1) =~= split_lines(t.skip(i)));
        assert(t.skip(i) =~= s.skip(i + 1));
        assert(split_lines(s) =~~= seq![s.take(i)] + split_lines(s.skip(i + 1)));
    }
}

/// Applying a first line and then the rest equals applying them all.
pub proof fn lemma_apply_lines_cons(
    m: Map<Seq<char>, Seq<char>>,
    l: Seq<char>,
    rest: Seq<Seq<char>>,
)
    ensures
        apply_lines(m, seq![l] + rest) == apply_lines(apply_line(m, l), rest),
{
    let all = seq![l] + rest;
    assert(all[0] == l);
    assert(all.skip(1) =~= rest);
}

/// The count of a character in a one-character text.
pub proof fn lemma_count_single(c: char, d: char)
    ensures
        count_char(seq![c], d) == (if c == d {
            1nat
        } else {
            0nat
        }),
{
    reveal_with_fuel(count_char, 2);
    assert(seq![c].skip(1) =~= Seq::<char>::empty());
}

/// Neither identity key holds an `=` or a newline.
pub proof fn lemma_identity_keys()
    ensures
        count_char(user_name_key(), '=') == 0,
        count_char(user_name_key(), '\n') == 0,
        count_char(user_email_key(), '=') == 0,
        count_char(user_email_key(), '\n') == 0,
        user_name_key() != user_email_key(),
{
    crate::config::lemma_identity_keys_distinct();
    reveal_strlit("user.name");
    reveal_strlit("user.email");
    let k1 = user_name_key();
    let k2 = user_email_key();
    assert(k1.len() == 9);
    assert(k2.len() == 10);
    assert forall|j: int| 0 <= j < k1.len() implies k1[j] != '=' && k1[j] != '\n' by {
        assert(k1[0] == 'u');
        assert(k1[1] == 's');
        assert(k1[2] == 'e');
        assert(k1[3] == 'r');
        assert(k1[4] == '.');
        assert(k1[5] == 'n');
        assert(k1[6] == 'a');
        assert(k1[7] == 'm');
        assert(k1[8] == 'e');
    }
    assert forall|j: int| 0 <= j < k2.len() implies k2[j] != '=' && k2[j] != '\n' by {
        assert(k2[0] == 'u');
        assert(k2[1] == 's');
        assert(k2[2] == 'e');
        assert(k2[3] == 'r');
        assert(k2[4] == '.');
        assert(k2[5] == 'e');
        assert(k2[6] == 'm');
        assert(k2[7] == 'a');
        assert(k2[8] == 'i');
        assert(k2[9] == 'l');
    }
    lemma_count_zero_iff(k1, '=');
    lemma_count_zero_iff(k1, '\n');
    lemma_count_zero_iff(k2, '=');
    lemma_count_zero_iff(k2, '\n');
}

/// A backup line with zero or more than one `=` is skipped: it parses
/// to nothing and applying it changes no key at all.
pub proof fn lemma_malformed_line_skipped(m: Map<Seq<char>, Seq<char>>, l: Seq<char>)
    requires
        count_char(l, '=') != 1,
    ensures
        parse_line(l) is None,
        apply_line(m, l) == m,
{
}

/// Restoring lines never touches a key that no applied line names:
/// such a key keeps exactly the value (or absence) it had before.
pub proof fn lemma_restore_untouched_keys(
    m: Map<Seq<char>, Seq<char>>,
    lines: Seq<Seq<char>>,
    k: Seq<char>,
)
    requires
        forall|i: int| 0 <= i < lines.len() ==> (match parse_line(#[trigger] lines[i]) {
            Some(p) => p.0 != k,
            None => true,
        }),
    ensures
        config_get(apply_lines(m, lines), k) == config_get(m, k),
    decreases lines.len(),
{
    if lines.len() > 0 {
        let m1 = apply_line(m, lines[0]);
        assert(config_get(m1, k) == config_get(m, k));
        assert(forall|i: int| 0 <= i < lines.skip(1).len()
            ==> #[trigger] lines.skip(1)[i] == lines[i + 1]);
        lemma_restore_untouched_keys(m1, lines.skip(1), k);
    }
}

/// One well-formed line `key=value` parses back to exactly its pair.
pub proof fn lemma_line_parses(key: Seq<char>, value: Seq<char>)
    requires
        count_char(key, '=') == 0,
        count_char(value, '=') == 0,
    ensures
        parse_line(key + seq!['='] + value) == Some((key, value)),
{
    let l = key + seq!['='] + value;
    lemma_count_zero_iff(key, '=');
    lemma_count_zero_iff(value, '=');
    assert(l[key.len() as int] == '=');
    assert forall|j: int| 0 <= j < key.len() implies l[j] != '=' by {
        assert(l[j] == key[j]);
    }
    lemma_first_at(l, '=', key.len() as int);
    assert(l.skip(key.len() as int + 1) =~= value);
    assert(count_char(l, '=') == 1);
    assert(l.take(key.len() as int) =~= key);
}

/// Law: values written to the two identity keys, saved as backup
/// text, and restored over any later configuration are read back
/// exactly; the restore is precisely the two writes.
pub proof fn lemma_backup_restore_round_trip(
    cfg0: Map<Seq<char>, Seq<char>>,
    cfg1: Map<Seq<char>, Seq<char>>,
    name: Seq<char>,
    email: Seq<char>,
)
    requires
        count_char(name, '=') == 0,
        count_char(name, '\n') == 0,
        count_char(email, '=') == 0,
        count_char(email, '\n') == 0,
    ensures
        ({
            let saved = cfg0.insert(user_name_key(), name).insert(user_email_key(), email);
            let content = backup_text(
                config_get(saved, user_name_key()),
                config_get(saved, user_email_key()),
            );
            let restored = restore_map(cfg1, content);
            restored == cfg1.insert(user_name_key(), name).insert(user_email_key(), email)
                && config_get(restored, user_name_key()) == Some(name)
                && config_get(restored, user_email_key()) == Some(email)
        }),
{
    lemma_identity_keys();
    let unk = user_name_key();
    let uek = user_email_key();
    let saved = cfg0.insert(unk, name).insert(uek, email);
    assert(config_get(saved, unk) == Some(name));
    assert(config_get(saved, uek) == Some(email));
    let content = backup_text(Some(name), Some(email));
    let e1 = seq!['='];
    let nl = seq!['\n'];
    let l1 = unk + e1 + name;
    let l2 = uek + e1 + email;
    lemma_count_single('=', '\n');
    lemma_count_single('\n', '\n');
    lemma_count_append(unk, e1, '\n');
    lemma_count_append(unk + e1, name, '\n');
    lemma_count_append(uek, e1, '\n');
    lemma_count_append(uek + e1, email, '\n');
    assert(count_char(l1, '\n') == 0);
    assert(count_char(l2, '\n') == 0);
    let rest = l2 + nl;
    assert(content =~= l1 + nl + rest);
    let whole = l1 + nl + rest;

    lemma_count_zero_iff(l1, '\n');
    assert(whole[l1.len() as int] == '\n');
    assert forall|j: int| 0 <= j < l1.len() implies whole[j] != '\n' by {
        assert(whole[j] == l1[j]);
    }
    lemma_split_lines_at(whole, l1.len() as int);
    assert(whole.take(l1.len() as int) =~= l1);
    assert(whole.skip(l1.len() as int + 1) =~= rest);

    lemma_count_zero_iff(l2, '\n');
    assert(rest[l2.len() as int] == '\n');
    assert forall|j: int| 0 <= j < l2.len() implies rest[j] != '\n' by {
        assert(rest[j] == l2[j]);
    }
    lemma_split_lines_at(rest, l2.len() as int);
    assert(rest.take(l2.len() as int) =~= l2);
    assert(rest.skip(l2.len() as int + 1) =~= Seq::<char>::empty());

    let lines = split_lines(whole);
    assert(lines == seq![l1] + (seq![l2] + seq![Seq::<char>::empty()]));

    lemma_line_parses(unk, name);
    lemma_line_parses(uek, email);
    lemma_apply_lines_cons(cfg1, l1, seq![l2] + seq![Seq::<char>::empty()]);
    let m1 = apply_line(cfg1, l1);
    assert(m1 == cfg1.insert(unk, name));
    lemma_apply_lines_cons(m1, l2, seq![Seq::<char>::empty()]);
    let m2 = apply_line(m1, l2);
    assert(m2 == m1.insert(uek, email));
    lemma_count_zero_iff(Seq::<char>::empty(), '=');
    lemma_apply_lines_single(m2, Seq::<char>::empty());
    assert(seq![Seq::<char>::empty()].skip(1) =~= Seq::<Seq<char>>::empty());
    assert(restore_map(cfg1, content) == m2);
}

} // verus!
