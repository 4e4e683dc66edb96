//! The realm settings file: one `KEY=value` line per setting.
use vstd::prelude::*;
use crate::text::same_text;
use crate::working_dir::views_of;

verus! {

/// `s` cut at every `c`; a text without `c` is one piece.
pub open spec fn split_on(s: Seq<char>, c: char) -> Seq<Seq<char>>
    decreases s.len(),
{
    if s.len() == 0 {
        seq![Seq::empty()]
    } else {
        let p = split_on(s.drop_last(), c);
        if s.last() == c {
            p.push(Seq::empty())
        } else {
            p.drop_last().push(p.last().push(s.last()))
        }
    }
}

/// `s` cut at every `c`, without the empty piece after a final `c`.
pub open spec fn split_terminated(s: Seq<char>, c: char) -> Seq<Seq<char>> {
    let p = split_on(s, c);
    if p.last().len() == 0 {
        p.drop_last()
    } else {
        p
    }
}

/// Cutting always yields at least one piece.
pub proof fn lemma_split_on_nonempty(s: Seq<char>, c: char)
    ensures
        split_on(s, c).len() >= 1,
    decreases s.len(),
{
    if s.len() > 0 {
        lemma_split_on_nonempty(s.drop_last(), c);
    }
}

/// The setting a line gives: its text before the first `=`, and whether the
/// text after it (up to a second `=`) is `true`. A line with nothing after
/// its first `=` gives none.
pub open spec fn setting_of(line: Seq<char>) -> Option<(Seq<char>, bool)> {
    let parts = split_terminated(line, '=');
    if parts.len() >= 2 {
        Some((parts[0], parts[1] == "true"@))
    } else {
        None
    }
}

/// The settings of `lines`, in order.
pub open spec fn settings_of(lines: Seq<Seq<char>>) -> Seq<(Seq<char>, bool)>
    decreases lines.len(),
{
    if lines.len() == 0 {
        Seq::empty()
    } else {
        match setting_of(lines.last()) {
            Some(p) => settings_of(lines.drop_last()).push(p),
            None => settings_of(lines.drop_last()),
        }
    }
}

/// The value the last setting of `key` gives, or `false`.
pub open spec fn value_spec(key: Seq<char>, settings: Seq<(Seq<char>, bool)>) -> bool
    decreases settings.len(),
{
    if settings.len() == 0 {
        false
    } else if settings.last().0 == key {
        settings.last().1
    } else {
        value_spec(key, settings.drop_last())
    }
}

/// The settings a file's text gives.
pub open spec fn parse_spec(text: Seq<char>) -> Seq<(Seq<char>, bool)> {
    settings_of(split_terminated(text, '\n'))
}

pub open spec fn text_view(text: Option<String>) -> Seq<char> {
    match text {
        Some(t) => t@,
        None => Seq::empty(),
    }
}

/// `s` cut at every `c`, without the empty piece after a final `c`.
pub fn split_terminator(s: &str, c: char) -> (r: Vec<String>)
    ensures
        views_of(r@) == split_terminated(s@, c),
{
    let n = s.unicode_len();
    let mut pieces: Vec<String> = Vec::new();
    let mut start: usize = 0;
    let mut i: usize = 0;
    assert(s@.subrange(0, 0) =~= Seq::<char>::empty());
    assert(s@.subrange(0, 0) =~= Seq::<char>::empty());
    while i < n
        invariant
            n == s@.len(),
            start <= i <= n,
            views_of(pieces@).push(s@.subrange(start as int, i as int)) == split_on(
                s@.subrange(0, i as int),
                c,
            ),
        decreases n - i,
    {
        let ghost before = views_of(pieces@);
        let ghost sub = s@.subrange(0, i + 1);
        assert(sub.drop_last() == s@.subrange(0, i as int));
        assert(sub.last() == s@[i as int]);
        if s.get_char(i) == c {
            let piece = s.substring_char(start, i);
            pieces.push(String::from_str(piece));
            assert(views_of(pieces@) =~= before.push(s@.subrange(start as int, i as int)));
            start = i + 1;
            assert(s@.subrange(start as int, i + 1) =~= Seq::<char>::empty());
        } else {
            assert(s@.subrange(start as int, i + 1) =~= s@.subrange(start as int, i as int).push(
                s@[i as int],
            ));
            assert(before.push(s@.subrange(start as int, i as int)).drop_last() == before);
        }
        i = i + 1;
    }
    assert(s@.subrange(0, n as int) == s@);
    let last = s.substring_char(start, n);
    if last.unicode_len() > 0 {
        let ghost before = views_of(pieces@);
        pieces.push(String::from_str(last));
        assert(views_of(pieces@) =~= before.push(last@));
    } else {
        assert(views_of(pieces@).push(last@).drop_last() == views_of(pieces@));
    }
    pieces
}

/// The setting a line gives, if any.
pub fn parse_line(line: &str) -> (r: Option<(String, bool)>)
    ensures
        match r {
            Some((k, v)) => setting_of(line@) == Some((k@, v)),
            None => setting_of(line@) is None,
        },
{
    let parts = split_terminator(line, '=');
    if parts.len() >= 2 {
        let value = same_text(parts[1].as_str(), "true");
        Some((parts[0].clone(), value))
    } else {
        None
    }
}

/// The realm settings.
#[derive(Debug)]
pub struct Config {
    /// Reload modified files on their own.
    pub auto: bool,
    /// Leave the ignore list out when loading.
    pub ignore_on_load: bool,
    /// Leave the ignore list out when showing.
    pub ignore_on_show: bool,
    /// Load only modified files.
    pub modified: bool,
    /// Where the settings file is.
    pub path: Option<String>,
}

impl Config {
    /// The settings that `text`, the contents of the file at `path`, gives.
    /// A setting missing from the file is off.
    pub fn init(path: Option<String>, text: Option<String>) -> (r: Config)
        ensures
            r.auto == value_spec("AUTO"@, parse_spec(text_view(text))),
            r.ignore_on_load == value_spec("IGNORE_ON_LOAD"@, parse_spec(text_view(text))),
            r.ignore_on_show == value_spec("IGNORE_ON_SHOW"@, parse_spec(text_view(text))),
            r.modified == value_spec("MODIFIED"@, parse_spec(text_view(text))),
            r.path == path,
    {
        let settings = match &text {
            Some(t) => Config::parse(t.as_str()),
            None => {
                let v: Vec<(String, bool)> = Vec::new();
                proof {
                    lemma_split_on_nonempty(Seq::<char>::empty(), '\n');
                    assert(split_on(Seq::<char>::empty(), '\n').last().len() == 0);
                    assert(split_terminated(Seq::<char>::empty(), '\n') =~= Seq::<Seq<char>>::empty());
                    assert(settings_views(v@) =~= parse_spec(text_view(text)));
                }
                v
            },
        };
        let auto = Config::validate("AUTO", &settings);
        let ignore_on_load = Config::validate("IGNORE_ON_LOAD", &settings);
        let ignore_on_show = Config::validate("IGNORE_ON_SHOW", &settings);
        let modified = Config::validate("MODIFIED", &settings);
        Config { auto, ignore_on_load, ignore_on_show, modified, path }
    }

    /// The value the last setting of `key` gives, or `false`.
    pub fn validate(key: &str, settings: &Vec<(String, bool)>) -> (r: bool)
        ensures
            r == value_spec(key@, settings_views(settings@)),
    {
        let ghost sv = settings_views(settings@);
        let mut i: usize = settings.len();
        assert(sv.subrange(0, i as int) == sv);
        while i > 0
            invariant
                i <= settings.len(),
                sv == settings_views(settings@),
                value_spec(key@, sv) == value_spec(key@, sv.subrange(0, i as int)),
            decreases i,
        {
            let ghost sub = sv.subrange(0, i as int);
            assert(sub.drop_last() == sv.subrange(0, i - 1));
            assert(sub.last() == (settings@[i - 1].0@, settings@[i - 1].1));
            if same_text(settings[i - 1].0.as_str(), key) {
                return settings[i - 1].1;
            }
            i = i - 1;
        }
        false
    }

    /// The settings of `text`, in order.
    pub fn parse(text: &str) -> (r: Vec<(String, bool)>)
        ensures
            settings_views(r@) == parse_spec(text@),
    {
        let lines = split_terminator(text, '\n');
        let ghost lv = views_of(lines@);
        let mut r: Vec<(String, bool)> = Vec::new();
        let mut i: usize = 0;
        while i < lines.len()
            invariant
                i <= lines.len(),
                lv == views_of(lines@),
                settings_views(r@) == settings_of(lv.subrange(0, i as int)),
            decreases lines.len() - i,
        {
            let ghost sub = lv.subrange(0, i + 1);
            assert(sub.drop_last() == lv.subrange(0, i as int));
            assert(sub.last() == lines@[i as int]@);
            let ghost before = settings_views(r@);
            match parse_line(lines[i].as_str()) {
                Some(p) => {
                    let ghost pv = (p.0@, p.1);
                    r.push(p);
                    assert(settings_views(r@) =~= before.push(pv));
                },
                None => {},
            }
            i = i + 1;
        }
        assert(lv.subrange(0, lines.len() as int) == lv);
        r
    }
}

pub open spec fn settings_views(v: Seq<(String, bool)>) -> Seq<(Seq<char>, bool)> {
    v.map_values(|p: (String, bool)| (p.0@, p.1))
}

} // verus!
