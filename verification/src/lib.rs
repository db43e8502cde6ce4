use vstd::prelude::*;

pub mod coordinator;
pub mod crud;
pub mod models;
pub mod search;
pub mod state;

verus! {

/// The longest token the analysis pipeline keeps; longer ones are dropped
/// as probable noise.
pub const LONG_TOKEN_LIMIT: usize = 40;

/// Replaces every hyphen with a space, character for character.
pub open spec fn normalize_spec(s: Seq<char>) -> Seq<char> {
    s.map_values(|c: char| if c == '-' { ' ' } else { c })
}

/// Law: normalization is idempotent. A query whose hyphens were already
/// replaced by spaces normalizes to the same analyzed text as the raw
/// form, so both hand the engine one and the same query.
pub proof fn lemma_normalize_idempotent(s: Seq<char>)
    ensures
        normalize_spec(normalize_spec(s)) == normalize_spec(s),
{
    assert(normalize_spec(normalize_spec(s)) =~= normalize_spec(s));
}

/// Hyphen normalization applied to every content field and every query
/// before the engine's tokenizer sees the text, so hyphenated compounds
/// tokenize as separate words.
pub fn preprocess(text: &str) -> (r: String)
    ensures
        r@ == normalize_spec(text@),
{
    let n = text.unicode_len();
    let mut out = String::new();
    let mut i: usize = 0;
    while i < n
        invariant
            n == text@.len(),
            i <= n,
            out@ == normalize_spec(text@.take(i as int)),
        decreases n - i,
    {
        let c = text.get_char(i);
        if c == '-' {
            push_char(&mut out, ' ');
        } else {
            push_char(&mut out, c);
        }
        proof {
            assert(out@ =~= normalize_spec(text@.take(i + 1)));
        }
        i = i + 1;
    }
    proof {
        assert(text@.take(n as int) =~= text@);
    }
    out
}

/// Relies on String::push: appends the given character to the end of the string.
#[verifier::external_body]
fn push_char(s: &mut String, c: char)
    ensures
        final(s)@ == old(s)@.push(c),
{
    s.push(c)
}

/// Appends one stopword to the list under construction, leaving the
/// entries before it unchanged.
fn push_stopword(v: &mut Vec<String>, w: &str)
    ensures
        final(v)@.len() == old(v)@.len() + 1,
        final(v)@[old(v)@.len() as int]@ == w@,
        forall|i: int| 0 <= i < old(v)@.len() ==> final(v)@[i] == old(v)@[i],
{
    v.push(w.to_owned());
}

/// The fixed Russian stopword set the analysis pipeline removes. The
/// contract pins the set's size and samples its first, a middle and its
/// last entry; the full list stands in the body, one call per word.
#[verifier::rlimit(60)]
pub fn stopword_list() -> (r: Vec<String>)
    ensures
        r@.len() == 151,
        r@[0]@ == "и"@,
        r@[27]@ == "только"@,
        r@[150]@ == "между"@,
{
    let mut v: Vec<String> = Vec::new();
    push_stopword(&mut v, "и"); push_stopword(&mut v, "в"); push_stopword(&mut v, "во"); push_stopword(&mut v, "не");
    push_stopword(&mut v, "что"); push_stopword(&mut v, "он"); push_stopword(&mut v, "на"); push_stopword(&mut v, "я");
    push_stopword(&mut v, "с"); push_stopword(&mut v, "со"); push_stopword(&mut v, "как"); push_stopword(&mut v, "а");
    push_stopword(&mut v, "то"); push_stopword(&mut v, "все"); push_stopword(&mut v, "она"); push_stopword(&mut v, "так");
    push_stopword(&mut v, "его"); push_stopword(&mut v, "но"); push_stopword(&mut v, "да"); push_stopword(&mut v, "ты");
    push_stopword(&mut v, "к"); push_stopword(&mut v, "у"); push_stopword(&mut v, "же"); push_stopword(&mut v, "вы");
    proof {
        assert(v@.len() == 24);
        assert(v@[0]@ == "и"@);
    }
    push_stopword(&mut v, "за"); push_stopword(&mut v, "бы"); push_stopword(&mut v, "по"); push_stopword(&mut v, "только");
    push_stopword(&mut v, "ее"); push_stopword(&mut v, "мне"); push_stopword(&mut v, "было"); push_stopword(&mut v, "вот");
    push_stopword(&mut v, "от"); push_stopword(&mut v, "меня"); push_stopword(&mut v, "еще"); push_stopword(&mut v, "нет");
    push_stopword(&mut v, "о"); push_stopword(&mut v, "из"); push_stopword(&mut v, "ему"); push_stopword(&mut v, "теперь");
    push_stopword(&mut v, "когда"); push_stopword(&mut v, "даже"); push_stopword(&mut v, "ну"); push_stopword(&mut v, "вдруг");
    push_stopword(&mut v, "ли"); push_stopword(&mut v, "если"); push_stopword(&mut v, "уже"); push_stopword(&mut v, "или");
    proof {
        assert(v@.len() == 48);
        assert(v@[0]@ == "и"@);
        assert(v@[27]@ == "только"@);
    }
    push_stopword(&mut v, "ни"); push_stopword(&mut v, "быть"); push_stopword(&mut v, "был"); push_stopword(&mut v, "него");
    push_stopword(&mut v, "до"); push_stopword(&mut v, "вас"); push_stopword(&mut v, "нибудь"); push_stopword(&mut v, "опять");
    push_stopword(&mut v, "уж"); push_stopword(&mut v, "вам"); push_stopword(&mut v, "ведь"); push_stopword(&mut v, "там");
    push_stopword(&mut v, "потом"); push_stopword(&mut v, "себя"); push_stopword(&mut v, "ничего"); push_stopword(&mut v, "ей");
    push_stopword(&mut v, "может"); push_stopword(&mut v, "они"); push_stopword(&mut v, "тут"); push_stopword(&mut v, "где");
    push_stopword(&mut v, "есть"); push_stopword(&mut v, "надо"); push_stopword(&mut v, "ней"); push_stopword(&mut v, "для");
    proof {
        assert(v@.len() == 72);
        assert(v@[0]@ == "и"@);
        assert(v@[27]@ == "только"@);
    }
    push_stopword(&mut v, "мы"); push_stopword(&mut v, "тебя"); push_stopword(&mut v, "их"); push_stopword(&mut v, "чем");
    push_stopword(&mut v, "была"); push_stopword(&mut v, "сам"); push_stopword(&mut v, "чтоб"); push_stopword(&mut v, "без");
    push_stopword(&mut v, "будто"); push_stopword(&mut v, "чего"); push_stopword(&mut v, "раз"); push_stopword(&mut v, "тоже");
    push_stopword(&mut v, "себе"); push_stopword(&mut v, "под"); push_stopword(&mut v, "будет"); push_stopword(&mut v, "ж");
    push_stopword(&mut v, "тогда"); push_stopword(&mut v, "кто"); push_stopword(&mut v, "этот"); push_stopword(&mut v, "того");
    push_stopword(&mut v, "потому"); push_stopword(&mut v, "этого"); push_stopword(&mut v, "какой"); push_stopword(&mut v, "совсем");
    proof {
        assert(v@.len() == 96);
        assert(v@[0]@ == "и"@);
        assert(v@[27]@ == "только"@);
    }
    push_stopword(&mut v, "ним"); push_stopword(&mut v, "здесь"); push_stopword(&mut v, "этом"); push_stopword(&mut v, "один");
    push_stopword(&mut v, "почти"); push_stopword(&mut v, "мой"); push_stopword(&mut v, "тем"); push_stopword(&mut v, "чтобы");
    push_stopword(&mut v, "нее"); push_stopword(&mut v, "сейчас"); push_stopword(&mut v, "были"); push_stopword(&mut v, "куда");
    push_stopword(&mut v, "зачем"); push_stopword(&mut v, "всех"); push_stopword(&mut v, "никогда"); push_stopword(&mut v, "можно");
    push_stopword(&mut v, "при"); push_stopword(&mut v, "наконец"); push_stopword(&mut v, "два"); push_stopword(&mut v, "об");
    push_stopword(&mut v, "другой"); push_stopword(&mut v, "хоть"); push_stopword(&mut v, "после"); push_stopword(&mut v, "над");
    proof {
        assert(v@.len() == 120);
        assert(v@[0]@ == "и"@);
        assert(v@[27]@ == "только"@);
    }
    push_stopword(&mut v, "больше"); push_stopword(&mut v, "тот"); push_stopword(&mut v, "через"); push_stopword(&mut v, "эти");
    push_stopword(&mut v, "нас"); push_stopword(&mut v, "про"); push_stopword(&mut v, "всего"); push_stopword(&mut v, "них");
    push_stopword(&mut v, "какая"); push_stopword(&mut v, "много"); push_stopword(&mut v, "разве"); push_stopword(&mut v, "три");
    push_stopword(&mut v, "эту"); push_stopword(&mut v, "моя"); push_stopword(&mut v, "впрочем"); push_stopword(&mut v, "хорошо");
    push_stopword(&mut v, "свою"); push_stopword(&mut v, "этой"); push_stopword(&mut v, "перед"); push_stopword(&mut v, "иногда");
    push_stopword(&mut v, "лучше"); push_stopword(&mut v, "чуть"); push_stopword(&mut v, "том"); push_stopword(&mut v, "нельзя");
    proof {
        assert(v@.len() == 144);
        assert(v@[0]@ == "и"@);
        assert(v@[27]@ == "только"@);
    }
    push_stopword(&mut v, "такой"); push_stopword(&mut v, "им"); push_stopword(&mut v, "более"); push_stopword(&mut v, "всегда");
    push_stopword(&mut v, "конечно"); push_stopword(&mut v, "всю"); push_stopword(&mut v, "между");
    proof {
        assert(v@.len() == 151);
        assert(v@[0]@ == "и"@);
        assert(v@[27]@ == "только"@);
        assert(v@[150]@ == "между"@);
    }
    v
}

/// Registers the one analysis pipeline that both index-time content and
/// query-time text run through; the schema's text fields reference it by
/// name, so index-time and query-time analysis cannot drift apart.
pub fn register_tokenizer(index: &tantivy::Index) {
    let stopwords = stopword_list();
    crate::state::register_ru_stem(index, stopwords, LONG_TOKEN_LIMIT);
}

} // verus!
