//! The configuration file: lines of the form `NAME = value`.
use vstd::hash_map::StringHashMap;
use vstd::prelude::*;
use vstd::string::*;

use crate::text::{law_leading_space_is_skipped, law_trimming_undoes_padding};
use crate::text::{begins_with, is_space, pieces, trimmed, trimmed_start};
use crate::text::{find, has_prefix, split, trim, trim_start};

verus! {

/// A line that sets a name: it holds an equals sign and is no comment.
pub open spec fn is_setting(line: Seq<char>) -> bool {
    !begins_with(trimmed_start(line), "#"@) && line.contains('=')
}

/// The name that a line sets: what stands before the first equals sign.
pub open spec fn setting_name(line: Seq<char>) -> Seq<char> {
    trimmed(line.take(line.index_of_first('=')->0))
}

/// The value that a line sets: all that stands behind the first equals sign.
pub open spec fn setting_value(line: Seq<char>) -> Seq<char> {
    trimmed(line.skip(line.index_of_first('=')->0 + 1))
}

/// What the lines set. A later line overrides an earlier one.
pub open spec fn settings(lines: Seq<Seq<char>>) -> Map<Seq<char>, Seq<char>>
    decreases lines.len(),
{
    if lines.len() == 0 {
        Map::empty()
    } else {
        let before = settings(lines.drop_last());
        let line = lines.last();
        if is_setting(line) {
            before.insert(setting_name(line), setting_value(line))
        } else {
            before
        }
    }
}

/// The settings of a configuration file.
pub struct Conf {
    values: StringHashMap<String>,
}

impl View for Conf {
    type V = Map<Seq<char>, Seq<char>>;

    closed spec fn view(&self) -> Map<Seq<char>, Seq<char>> {
        self.values@.map_values(|v: String| v@)
    }
}

impl Conf {
    /// The value of `name`, where it is set.
    pub fn get(&self, name: &str) -> (r: Option<&str>)
        ensures
            match r {
                Some(v) => self@.contains_key(name@) && v@ == self@[name@],
                None => !self@.contains_key(name@),
            },
    {
        match self.values.get(name) {
            Some(v) => Some(v.as_str()),
            None => None,
        }
    }
}

/// Reads the text of a configuration file.
pub fn load_conf(content: &str) -> (r: Conf)
    ensures
        r@ == settings(pieces(content@, '\n')),
{
    let lines: Vec<&str> = split(content, '\n');
    let ghost all = lines@.map_values(|p: &str| p@);
    let mut values: StringHashMap<String> = StringHashMap::new();
    let mut i: usize = 0;
    assert(values@.map_values(|v: String| v@) =~= settings(all.take(0)));
    while i < lines.len()
        invariant
            all == lines@.map_values(|p: &str| p@),
            i <= lines@.len(),
            values@.map_values(|v: String| v@) == settings(all.take(i as int)),
        decreases lines@.len() - i,
    {
        let line: &str = lines[i];
        let ghost before = values@;
        assert(all[i as int] == line@);
        assert(all.take(i + 1).drop_last() =~= all.take(i as int));
        if !has_prefix(trim_start(line), "#") {
            match find(line, '=') {
                Some(at) => {
                    let n: usize = line.unicode_len();
                    let name: &str = trim(line.substring_char(0, at));
                    let value: &str = trim(line.substring_char(at + 1, n));
                    proof {
                        assert(line@.subrange(0, at as int) =~= line@.take(at as int));
                        assert(line@.subrange(at + 1, n as int) =~= line@.skip(at + 1));
                    }
                    let owned: String = value.to_owned();
                    proof {
                        assert(before.insert(name@, owned).map_values(|v: String| v@)
                            =~= before.map_values(|v: String| v@).insert(name@, value@));
                    }
                    values.insert(name.to_owned(), owned);
                },
                None => {},
            }
        }
        i = i + 1;
    }
    assert(all.take(lines@.len() as int) =~= all);
    Conf { values }
}

/// A comment, or any other line that sets nothing, can be left out wherever it
/// stands.
pub proof fn law_other_lines_do_not_matter(
    front: Seq<Seq<char>>,
    line: Seq<char>,
    back: Seq<Seq<char>>,
)
    requires
        !is_setting(line),
    ensures
        settings(front.push(line) + back) == settings(front + back),
    decreases back.len(),
{
    if back.len() == 0 {
        assert(front.push(line) + back =~= front.push(line));
        assert(front.push(line).drop_last() =~= front);
        assert(front + back =~= front);
    } else {
        law_other_lines_do_not_matter(front, line, back.drop_last());
        assert((front.push(line) + back).drop_last() =~= front.push(line) + back.drop_last());
        assert((front + back).drop_last() =~= front + back.drop_last());
    }
}

/// The last line that sets a name decides its value.
pub proof fn law_last_setting_wins(
    front: Seq<Seq<char>>,
    line: Seq<char>,
    back: Seq<Seq<char>>,
)
    requires
        is_setting(line),
        forall|i: int|
            #![trigger back[i]]
            0 <= i < back.len() && is_setting(back[i]) ==> setting_name(back[i])
                != setting_name(line),
    ensures
        settings(front.push(line) + back).contains_key(setting_name(line)),
        settings(front.push(line) + back)[setting_name(line)] == setting_value(line),
    decreases back.len(),
{
    let all = front.push(line) + back;
    if back.len() == 0 {
        assert(all =~= front.push(line));
        assert(all.drop_last() =~= front);
    } else {
        assert forall|i: int|
            #![trigger back.drop_last()[i]]
            0 <= i < back.drop_last().len() && is_setting(
                back.drop_last()[i],
            ) implies setting_name(back.drop_last()[i]) != setting_name(line) by {
            assert(back.drop_last()[i] == back[i]);
        }
        law_last_setting_wins(front, line, back.drop_last());
        assert(all.drop_last() =~= front.push(line) + back.drop_last());
        assert(all.last() == back[back.len() - 1]);
    }
}

proof fn lemma_trim_start_keeps_end(s: Seq<char>, c: char)
    requires
        is_space(c),
    ensures
        trimmed_start(s.push(c)) == if trimmed_start(s).len() == 0 {
            Seq::empty()
        } else {
            trimmed_start(s).push(c)
        },
    decreases s.len(),
{
    if s.len() == 0 {
        assert(s.push(c).drop_first() =~= s);
    } else if is_space(s[0]) {
        lemma_trim_start_keeps_end(s.drop_first(), c);
        assert(s.push(c).drop_first() =~= s.drop_first().push(c));
    }
}

/// White space at the end of a line does not matter: the carriage return of a
/// file from another system, for one.
pub proof fn law_space_at_line_end_is_ignored(line: Seq<char>, c: char)
    requires
        is_space(c),
    ensures
        is_setting(line.push(c)) == is_setting(line),
        is_setting(line) ==> setting_name(line.push(c)) == setting_name(line)
            && setting_value(line.push(c)) == setting_value(line),
{
    let longer = line.push(c);
    reveal_strlit("#");
    lemma_trim_start_keeps_end(line, c);
    let t = trimmed_start(line);
    if t.len() > 0 {
        assert(t.push(c).take(1) =~= t.take(1));
    }
    assert(c != '=');
    assert(longer.contains('=') == line.contains('=')) by {
        if line.contains('=') {
            let i = choose|i: int| 0 <= i < line.len() && line[i] == '=';
            assert(longer[i] == '=');
        }
        if longer.contains('=') {
            let i = choose|i: int| 0 <= i < longer.len() && longer[i] == '=';
            assert(line[i] == '=');
        }
    }
    if line.contains('=') {
        line.index_of_first_ensures('=');
        longer.index_of_first_ensures('=');
        let at = line.index_of_first('=')->0;
        let later = longer.index_of_first('=')->0;
        assert(longer[at] == '=');
        assert(at == later) by {
            if later < at {
                assert(line[later] == longer[later]);
            } else if at < later {
                assert(longer[at] == '=');
            }
        }
        assert(longer.take(at) =~= line.take(at));
        let v = line.skip(at + 1);
        assert(longer.skip(at + 1) =~= v.push(c));
        lemma_trim_start_keeps_end(v, c);
        let u = trimmed_start(v);
        if u.len() > 0 {
            assert(u.push(c).drop_last() =~= u);
        }
    }
}

proof fn lemma_no_equals_in_space(s: Seq<char>)
    requires
        forall|i: int| 0 <= i < s.len() ==> is_space(#[trigger] s[i]),
    ensures
        !s.contains('='),
{
}

/// A line of a name, an equals sign and a value sets the name to the value,
/// however much white space stands around either. The value may hold further
/// equals signs.
pub proof fn law_line_sets_its_name(
    indent: Seq<char>,
    name: Seq<char>,
    left: Seq<char>,
    right: Seq<char>,
    value: Seq<char>,
    end: Seq<char>,
)
    requires
        forall|i: int| 0 <= i < indent.len() ==> is_space(#[trigger] indent[i]),
        forall|i: int| 0 <= i < left.len() ==> is_space(#[trigger] left[i]),
        forall|i: int| 0 <= i < right.len() ==> is_space(#[trigger] right[i]),
        forall|i: int| 0 <= i < end.len() ==> is_space(#[trigger] end[i]),
        !name.contains('='),
        name.len() > 0 ==> !is_space(name[0]) && !is_space(name.last()) && name[0] != '#',
        value.len() > 0 ==> !is_space(value[0]) && !is_space(value.last()),
    ensures
        ({
            let line = indent + name + left + seq!['='] + right + value + end;
            &&& is_setting(line)
            &&& setting_name(line) == name
            &&& setting_value(line) == value
        }),
{
    let before = indent + name + left;
    let behind = right + value + end;
    let line = indent + name + left + seq!['='] + right + value + end;
    let at = before.len() as int;
    assert(line == before + seq!['='] + behind);
    lemma_no_equals_in_space(indent);
    lemma_no_equals_in_space(left);
    assert(line[at] == '=');
    line.index_of_first_ensures('=');
    let first = line.index_of_first('=')->0;
    if first < at {
        if first < indent.len() {
            assert(indent[first] == '=');
        } else if first < indent.len() + name.len() {
            assert(name[first - indent.len()] == '=');
        } else {
            assert(left[first - indent.len() - name.len()] == '=');
        }
    }
    assert(line.take(at) == before);
    assert(line.skip(at + 1) == behind);
    law_trimming_undoes_padding(indent, name, left);
    law_trimming_undoes_padding(right, value, end);
    reveal_strlit("#");
    let core = name + left + seq!['='] + behind;
    if name.len() > 0 {
        assert(line == indent + core);
        assert(core[0] == name[0]);
        law_leading_space_is_skipped(indent, core);
    } else {
        let blank = indent + left;
        let rest = seq!['='] + behind;
        assert(line == blank + rest);
        assert forall|i: int| 0 <= i < blank.len() implies is_space(#[trigger] blank[i]) by {
            if i < indent.len() {
                assert(blank[i] == indent[i]);
            } else {
                assert(blank[i] == left[i - indent.len()]);
            }
        }
        law_leading_space_is_skipped(blank, rest);
    }
    let t = trimmed_start(line);
    assert(t[0] != '#');
    if begins_with(t, "#"@) {
        assert(t.take(1)[0] == "#"@[0]);
    }
}

/// A line whose first character after white space is a number sign sets
/// nothing, nor does a line without an equals sign.
pub proof fn law_comments_set_nothing(indent: Seq<char>, rest: Seq<char>, line: Seq<char>)
    requires
        forall|i: int| 0 <= i < indent.len() ==> is_space(#[trigger] indent[i]),
        forall|i: int| 0 <= i < line.len() ==> #[trigger] line[i] != '=',
    ensures
        !is_setting(indent + seq!['#'] + rest),
        !is_setting(line),
{
    reveal_strlit("#");
    let comment = seq!['#'] + rest;
    assert(indent + seq!['#'] + rest == indent + comment);
    law_leading_space_is_skipped(indent, comment);
    assert(comment.take(1) == "#"@);
}

/// A name that no line sets is not set.
pub proof fn law_unnamed_is_unset(lines: Seq<Seq<char>>, name: Seq<char>)
    requires
        forall|i: int|
            #![trigger lines[i]]
            0 <= i < lines.len() && is_setting(lines[i]) ==> setting_name(lines[i]) != name,
    ensures
        !settings(lines).contains_key(name),
    decreases lines.len(),
{
    if lines.len() > 0 {
        let front = lines.drop_last();
        assert forall|i: int|
            #![trigger front[i]]
            0 <= i < front.len() && is_setting(front[i]) implies setting_name(front[i]) != name by {
            assert(front[i] == lines[i]);
        }
        law_unnamed_is_unset(front, name);
        assert(lines.last() == lines[lines.len() - 1]);
    }
}

} // verus!
