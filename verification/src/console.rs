//! The commands that are typed at a player.
use vstd::prelude::*;
use vstd::string::*;

verus! {

/// The character is white space, that is, has the Unicode property `White_Space`.
pub open spec fn whitespace(c: char) -> bool {
    let code = c as int;
    ||| 0x9 <= code <= 0xd
    ||| code == 0x20
    ||| code == 0x85
    ||| code == 0xa0
    ||| code == 0x1680
    ||| 0x2000 <= code <= 0x200a
    ||| 0x2028 <= code <= 0x2029
    ||| code == 0x202f
    ||| code == 0x205f
    ||| code == 0x3000
}

/// `char::is_whitespace` accepts the characters with the Unicode property `White_Space`.
pub assume_specification[ char::is_whitespace ](c: char) -> (r: bool)
    ensures
        r == whitespace(c),
;

/// What a line asks for.
#[derive(Debug)]
pub enum Request {
    Stop,
    Play,
    Pause,
    /// Load the song in the file of that name.
    Load(String),
    /// Load a song, but no file was named.
    LoadNothing,
    Exit,
    /// The word is no command.
    Invalid(String),
}

/// What a line asks for, over the characters of its words.
pub enum RequestModel {
    Stop,
    Play,
    Pause,
    Load(Seq<char>),
    LoadNothing,
    Exit,
    Invalid(Seq<char>),
}

impl View for Request {
    type V = RequestModel;

    open spec fn view(&self) -> RequestModel {
        match *self {
            Request::Stop => RequestModel::Stop,
            Request::Play => RequestModel::Play,
            Request::Pause => RequestModel::Pause,
            Request::Load(name) => RequestModel::Load(name@),
            Request::LoadNothing => RequestModel::LoadNothing,
            Request::Exit => RequestModel::Exit,
            Request::Invalid(word) => RequestModel::Invalid(word@),
        }
    }
}

/// How much white space a text begins with.
pub open spec fn leading_space(text: Seq<char>) -> int
    decreases text.len(),
{
    if text.len() > 0 && whitespace(text[0]) {
        1 + leading_space(text.skip(1))
    } else {
        0
    }
}

/// A text up to the white space that it ends with.
pub open spec fn without_trailing(text: Seq<char>) -> Seq<char>
    decreases text.len(),
{
    if text.len() > 0 && whitespace(text.last()) {
        without_trailing(text.drop_last())
    } else {
        text
    }
}

/// A text without the white space around it.
pub open spec fn trimmed(text: Seq<char>) -> Seq<char> {
    without_trailing(text.skip(leading_space(text)))
}

/// Where the word that begins at `from` ends: at the next space or with the text.
pub open spec fn word_end(text: Seq<char>, from: int) -> int
    decreases text.len() - from,
{
    if from >= text.len() || text[from] == ' ' {
        from
    } else {
        word_end(text, from + 1)
    }
}

/// The first word of a text.
pub open spec fn first_word(text: Seq<char>) -> Seq<char> {
    text.subrange(0, word_end(text, 0))
}

/// The second word of a text, the one behind the first space.
pub open spec fn second_word(text: Seq<char>) -> Option<Seq<char>> {
    let start = word_end(text, 0) + 1;
    if start > text.len() {
        None
    } else {
        Some(text.subrange(start, word_end(text, start)))
    }
}

/// What a text without white space around it asks for.
pub open spec fn requested(text: Seq<char>) -> RequestModel {
    let word = first_word(text);
    if word == "stop"@ {
        RequestModel::Stop
    } else if word == "play"@ {
        RequestModel::Play
    } else if word == "pause"@ {
        RequestModel::Pause
    } else if word == "load"@ {
        match second_word(text) {
            Some(name) => RequestModel::Load(name),
            None => RequestModel::LoadNothing,
        }
    } else if word == "exit"@ {
        RequestModel::Exit
    } else {
        RequestModel::Invalid(word)
    }
}

proof fn lemma_leading_space(text: Seq<char>, n: int)
    requires
        0 <= n <= text.len(),
        forall|k: int| 0 <= k < n ==> whitespace(#[trigger] text[k]),
        n == text.len() || !whitespace(text[n]),
    ensures
        leading_space(text) == n,
    decreases n,
{
    if n > 0 {
        assert(whitespace(text[0]));
        assert forall|k: int| 0 <= k < n - 1 implies whitespace(#[trigger] text.skip(1)[k]) by {
            assert(text.skip(1)[k] == text[k + 1]);
        }
        lemma_leading_space(text.skip(1), n - 1);
    }
}

/// Takes the white space around a text away.
fn trim<'a>(text: &'a str) -> (r: &'a str)
    ensures
        r@ == trimmed(text@),
{
    let len: usize = text.unicode_len();
    let mut start: usize = 0;
    while start < len && text.get_char(start).is_whitespace()
        invariant
            start <= len == text@.len(),
            forall|k: int| 0 <= k < start ==> whitespace(#[trigger] text@[k]),
        ensures
            start <= len,
            forall|k: int| 0 <= k < start ==> whitespace(#[trigger] text@[k]),
            start == len || !whitespace(text@[start as int]),
        decreases len - start,
    {
        start += 1;
    }
    proof {
        lemma_leading_space(text@, start as int);
    }
    let ghost rest = text@.skip(start as int);
    let mut end: usize = len;
    assert(text@.subrange(start as int, end as int) =~= rest);
    while start < end && text.get_char(end - 1).is_whitespace()
        invariant
            start <= end <= len == text@.len(),
            rest == text@.skip(start as int),
            without_trailing(text@.subrange(start as int, end as int)) == without_trailing(rest),
        ensures
            start <= end <= len,
            without_trailing(text@.subrange(start as int, end as int)) == without_trailing(rest),
            start == end || !whitespace(text@[end - 1]),
        decreases end - start,
    {
        assert(text@.subrange(start as int, end as int).drop_last() =~= text@.subrange(
            start as int,
            end - 1,
        ));
        end -= 1;
    }
    text.substring_char(start, end)
}

/// Finds where the word that begins at `from` ends.
fn find_word_end(text: &str, from: usize) -> (r: usize)
    requires
        from <= text@.len(),
    ensures
        r == word_end(text@, from as int),
        from <= r <= text@.len(),
{
    let len: usize = text.unicode_len();
    let mut end: usize = from;
    while end < len && text.get_char(end) != ' '
        invariant
            from <= end <= len == text@.len(),
            word_end(text@, from as int) == word_end(text@, end as int),
        ensures
            from <= end <= len,
            end == word_end(text@, from as int),
        decreases len - end,
    {
        end += 1;
    }
    end
}

/// What a text without white space around it asks for.
pub fn interpret(text: &str) -> (r: Request)
    ensures
        r@ == requested(text@),
{
    let end: usize = find_word_end(text, 0);
    let word = text.substring_char(0, end).to_owned();
    if word == "stop".to_owned() {
        Request::Stop
    } else if word == "play".to_owned() {
        Request::Play
    } else if word == "pause".to_owned() {
        Request::Pause
    } else if word == "load".to_owned() {
        if end < text.unicode_len() {
            let name_end: usize = find_word_end(text, end + 1);
            Request::Load(text.substring_char(end + 1, name_end).to_owned())
        } else {
            Request::LoadNothing
        }
    } else if word == "exit".to_owned() {
        Request::Exit
    } else {
        Request::Invalid(word)
    }
}

/// What a typed line asks for.
pub fn interpret_line(line: &str) -> (r: Request)
    ensures
        r@ == requested(trimmed(line@)),
{
    interpret(trim(line))
}

/// Where a word ends.
proof fn lemma_word_end(text: Seq<char>, from: int)
    requires
        0 <= from <= text.len(),
    ensures
        from <= word_end(text, from) <= text.len(),
        word_end(text, from) == text.len() || text[word_end(text, from)] == ' ',
        forall|k: int| from <= k < word_end(text, from) ==> #[trigger] text[k] != ' ',
    decreases text.len() - from,
{
    if from < text.len() && text[from] != ' ' {
        lemma_word_end(text, from + 1);
    }
}

/// A word ends at the first space behind it, or with the text.
proof fn lemma_word_ends_at(text: Seq<char>, from: int, end: int)
    requires
        0 <= from <= end <= text.len(),
        end == text.len() || text[end] == ' ',
        forall|k: int| from <= k < end ==> #[trigger] text[k] != ' ',
    ensures
        word_end(text, from) == end,
{
    lemma_word_end(text, from);
    let found = word_end(text, from);
    if found < end {
        assert(text[found] != ' ');
    }
    if end < found {
        assert(text[end] != ' ');
    }
}

/// The first word of a text is what stands before its first space.
pub proof fn law_first_word_ends_at_a_space(text: Seq<char>)
    ensures
        first_word(text).is_prefix_of(text),
        forall|k: int| 0 <= k < first_word(text).len() ==> #[trigger] first_word(text)[k] != ' ',
        first_word(text).len() == text.len() || text[first_word(text).len() as int] == ' ',
{
    lemma_word_end(text, 0);
}

/// What a line asks for is told by its first word, whatever stands behind it: each of the five commands by its
/// own word, and for any other word that it is none.
pub proof fn law_first_word_is_the_command(word: Seq<char>, rest: Seq<char>)
    requires
        forall|k: int| 0 <= k < word.len() ==> #[trigger] word[k] != ' ',
    ensures
        forall|text: Seq<char>|
            text == word || text == word + seq![' '] + rest ==> {
                let request = #[trigger] requested(text);
                &&& word == "stop"@ <==> request is Stop
                &&& word == "play"@ <==> request is Play
                &&& word == "pause"@ <==> request is Pause
                &&& word == "exit"@ <==> request is Exit
                &&& word == "load"@ <==> request is Load || request is LoadNothing
                &&& word != "stop"@ && word != "play"@ && word != "pause"@ && word != "exit"@ && word
                    != "load"@ ==> request == RequestModel::Invalid(word)
            },
{
    reveal_strlit("stop");
    reveal_strlit("play");
    reveal_strlit("pause");
    reveal_strlit("exit");
    reveal_strlit("load");
    assert("stop"@[0] == 's' && "play"@[0] == 'p' && "pause"@.len() == 5 && "play"@.len() == 4);
    assert("exit"@[0] == 'e' && "load"@[0] == 'l' && "pause"@[0] == 'p');
    let longer = word + seq![' '] + rest;
    assert(longer[word.len() as int] == ' ');
    assert forall|k: int| 0 <= k < word.len() implies #[trigger] longer[k] != ' ' by {
        assert(longer[k] == word[k]);
    }
    lemma_word_ends_at(word, 0, word.len() as int);
    lemma_word_ends_at(longer, 0, word.len() as int);
    assert(first_word(word) =~= word);
    assert(first_word(longer) =~= word);
}

/// Load takes the word behind it for the name of the file, whatever follows that; without one it names none.
pub proof fn law_load_takes_the_second_word(name: Seq<char>, rest: Seq<char>)
    requires
        forall|k: int| 0 <= k < name.len() ==> #[trigger] name[k] != ' ',
    ensures
        requested("load"@) == RequestModel::LoadNothing,
        requested("load"@ + seq![' '] + name) == RequestModel::Load(name),
        requested("load"@ + seq![' '] + name + seq![' '] + rest) == RequestModel::Load(name),
{
    reveal_strlit("load");
    let load = "load"@;
    assert forall|k: int| 0 <= k < load.len() implies #[trigger] load[k] != ' ' by {
        assert(load[0] == 'l' && load[1] == 'o' && load[2] == 'a' && load[3] == 'd');
    }
    law_first_word_is_the_command(load, name);
    law_first_word_is_the_command(load, name + seq![' '] + rest);
    lemma_word_ends_at(load, 0, 4);
    assert(requested(load) is Load || requested(load) is LoadNothing);
    let short = load + seq![' '] + name;
    let long = load + seq![' '] + name + seq![' '] + rest;
    assert(long =~= load + seq![' '] + (name + seq![' '] + rest));
    assert(requested(short) is Load || requested(short) is LoadNothing);
    assert(requested(long) is Load || requested(long) is LoadNothing);
    assert forall|k: int| 0 <= k < 4 implies #[trigger] short[k] != ' ' by {
        assert(short[k] == load[k]);
    }
    assert forall|k: int| 0 <= k < 4 implies #[trigger] long[k] != ' ' by {
        assert(long[k] == load[k]);
    }
    assert(short[4] == ' ' && long[4] == ' ');
    lemma_word_ends_at(short, 0, 4);
    lemma_word_ends_at(long, 0, 4);
    let end = 5 + name.len();
    assert forall|k: int| 5 <= k < end implies #[trigger] short[k] != ' ' by {
        assert(short[k] == name[k - 5]);
    }
    assert forall|k: int| 5 <= k < end implies #[trigger] long[k] != ' ' by {
        assert(long[k] == name[k - 5]);
    }
    assert(long[end as int] == ' ');
    lemma_word_ends_at(short, 5, end as int);
    lemma_word_ends_at(long, 5, end as int);
    assert(short.subrange(5, end as int) =~= name);
    assert(long.subrange(5, end as int) =~= name);
    assert(second_word(short) == Some(name));
    assert(second_word(long) == Some(name));
}

/// The white space that a text begins with is white space, and what follows is not.
proof fn lemma_leading_space_is_space(text: Seq<char>)
    ensures
        0 <= leading_space(text) <= text.len(),
        forall|k: int| 0 <= k < leading_space(text) ==> whitespace(#[trigger] text[k]),
        leading_space(text) < text.len() ==> !whitespace(text[leading_space(text)]),
    decreases text.len(),
{
    if text.len() > 0 && whitespace(text[0]) {
        let rest = text.skip(1);
        lemma_leading_space_is_space(rest);
        assert forall|k: int| 0 <= k < leading_space(text) implies whitespace(#[trigger] text[k]) by {
            if k > 0 {
                assert(text[k] == rest[k - 1]);
            }
        }
    }
}

/// What is taken away at the end of a text is white space, and what stays does not end in it.
proof fn lemma_without_trailing(text: Seq<char>)
    ensures
        without_trailing(text).is_prefix_of(text),
        forall|k: int|
            without_trailing(text).len() <= k < text.len() ==> whitespace(#[trigger] text[k]),
        without_trailing(text).len() > 0 ==> !whitespace(without_trailing(text).last()),
    decreases text.len(),
{
    if text.len() > 0 && whitespace(text.last()) {
        let shorter = text.drop_last();
        lemma_without_trailing(shorter);
        assert forall|k: int| without_trailing(text).len() <= k < text.len() implies whitespace(
            #[trigger] text[k],
        ) by {
            if k < shorter.len() {
                assert(text[k] == shorter[k]);
            }
        }
    }
}

/// Trimming takes white space away at both ends, all of it and nothing else: what stays is a stretch of the
/// text that neither begins nor ends in white space, and all around it is white space.
pub proof fn law_trimming_takes_all_space_around(text: Seq<char>)
    ensures
        exists|from: int, to: int|
            {
                &&& 0 <= from <= to <= text.len()
                &&& trimmed(text) == #[trigger] text.subrange(from, to)
                &&& forall|k: int|
                    0 <= k < from || to <= k < text.len() ==> whitespace(#[trigger] text[k])
                &&& from < to ==> !whitespace(text[from]) && !whitespace(text[to - 1])
            },
{
    lemma_leading_space_is_space(text);
    let from = leading_space(text);
    let rest = text.skip(from);
    lemma_without_trailing(rest);
    let to = from + trimmed(text).len();
    assert(trimmed(text) =~= text.subrange(from, to));
    assert forall|k: int| 0 <= k < from || to <= k < text.len() implies whitespace(#[trigger] text[k]) by {
        if k >= to {
            assert(text[k] == rest[k - from]);
        }
    }
    if from < to {
        assert(trimmed(text)[0] == text[from]);
        assert(trimmed(text).last() == text[to - 1]);
    }
}

/// A request says what it is, with the word that it is about.
pub proof fn law_requests_say_what_they_are(request: Request)
    ensures
        request is Stop <==> request@ is Stop,
        request is Play <==> request@ is Play,
        request is Pause <==> request@ is Pause,
        request is Exit <==> request@ is Exit,
        request is LoadNothing <==> request@ is LoadNothing,
        request matches Request::Load(name) ==> request@ == RequestModel::Load(name@),
        request matches Request::Invalid(word) ==> request@ == RequestModel::Invalid(word@),
{
}

} // verus!
