use vstd::prelude::*;

verus! {

/// The kind of a piece of a naming template.
#[derive(Clone, Copy, Debug, PartialEq, Eq, Structural)]
pub enum SyntaxType {
    Text,
    String,
    Number,
    Function,
    Operator,
    Property,
    Variable,
}

/// A piece of a template: its kind, its first character and its length in characters.
#[derive(Clone, Copy, Debug, PartialEq, Eq, Structural)]
pub struct SyntaxData {
    pub syntax: SyntaxType,
    pub start: usize,
    pub length: usize,
}

/// A naming template cut into pieces for highlighting.
#[derive(Clone, Debug)]
pub struct TemplateParser {
    pub syntax: Vec<SyntaxData>,
}

/// The first '%' at or after `i`, else the length.
pub open spec fn next_percent(s: Seq<char>, i: int) -> int
    decreases s.len() - i,
{
    if i < 0 || i >= s.len() {
        s.len() as int
    } else if s[i] == '%' {
        i
    } else {
        next_percent(s, i + 1)
    }
}

/// The pieces of `s` from `i` on: "%name%" is a variable; the text up to the
/// next '%' (or, from a '%' that nothing closes, to the end) is plain text.
pub open spec fn pieces_from(s: Seq<char>, i: int) -> Seq<SyntaxData>
    decreases s.len() - i
    via pieces_from_decreases
{
    if i < 0 || i >= s.len() {
        Seq::empty()
    } else if s[i] == '%' && next_percent(s, i + 1) < s.len() {
        let j = next_percent(s, i + 1);
        seq![SyntaxData { syntax: SyntaxType::Variable, start: i as usize, length: (j + 1 - i) as usize }]
            + pieces_from(s, j + 1)
    } else {
        let p = if s[i] == '%' {
            s.len() as int
        } else {
            next_percent(s, i + 1)
        };
        seq![SyntaxData { syntax: SyntaxType::Text, start: i as usize, length: (p - i) as usize }]
            + pieces_from(s, p)
    }
}

proof fn lemma_next_percent_range(s: Seq<char>, i: int)
    requires
        0 <= i <= s.len(),
    ensures
        i <= next_percent(s, i) <= s.len(),
        next_percent(s, i) < s.len() ==> s[next_percent(s, i)] == '%',
    decreases s.len() - i,
{
    if i < s.len() && s[i] != '%' {
        lemma_next_percent_range(s, i + 1);
    }
}

#[via_fn]
proof fn pieces_from_decreases(s: Seq<char>, i: int) {
    if 0 <= i < s.len() {
        lemma_next_percent_range(s, i + 1);
    }
}

fn find_percent(s: &Vec<char>, from: usize) -> (r: usize)
    requires
        from <= s@.len(),
    ensures
        r == next_percent(s@, from as int),
{
    let mut i = from;
    while i < s.len() && s[i] != '%'
        invariant
            from <= i <= s@.len(),
            next_percent(s@, from as int) == next_percent(s@, i as int),
        decreases s.len() - i,
    {
        i = i + 1;
    }
    i
}

impl TemplateParser {
    /// Cuts a template into pieces (see `pieces_from`).
    pub fn parse(template: &str) -> (r: TemplateParser)
        ensures
            r.syntax@ == pieces_from(template@, 0),
    {
        let s = crate::text::to_chars(template);
        let n = s.len();
        let mut acc: Vec<SyntaxData> = Vec::new();
        let mut i: usize = 0;
        while i < n
            invariant
                n == s@.len(),
                s@ == template@,
                i <= n,
                acc@ + pieces_from(s@, i as int) == pieces_from(s@, 0),
            decreases n - i,
        {
            let ghost before = acc@;
            let next;
            if s[i] == '%' && find_percent(&s, i + 1) < n {
                let j = find_percent(&s, i + 1);
                proof {
                    lemma_next_percent_range(s@, i + 1);
                }
                acc.push(SyntaxData { syntax: SyntaxType::Variable, start: i, length: j + 1 - i });
                next = j + 1;
            } else {
                let p = if s[i] == '%' {
                    n
                } else {
                    find_percent(&s, i + 1)
                };
                proof {
                    lemma_next_percent_range(s@, i + 1);
                }
                acc.push(SyntaxData { syntax: SyntaxType::Text, start: i, length: p - i });
                next = p;
            }
            proof {
                assert(acc@ + pieces_from(s@, next as int) =~= before + pieces_from(s@, i as int));
            }
            i = next;
        }
        assert(acc@ + pieces_from(s@, i as int) =~= acc@);
        TemplateParser { syntax: acc }
    }
}

/// The renamer, holding its template.
pub struct Renamer {
    pub template: TemplateParser,
}

/// The CSS class of a kind of piece.
pub open spec fn class_of(t: SyntaxType) -> Seq<char> {
    match t {
        SyntaxType::Text => "syntax_text"@,
        SyntaxType::String => "syntax_string"@,
        SyntaxType::Number => "syntax_number"@,
        SyntaxType::Function => "syntax_function"@,
        SyntaxType::Operator => "syntax_operator"@,
        SyntaxType::Property => "syntax_property"@,
        SyntaxType::Variable => "syntax_variable"@,
    }
}

fn class_name(t: SyntaxType) -> (r: &'static str)
    ensures
        r@ == class_of(t),
{
    match t {
        SyntaxType::Text => "syntax_text",
        SyntaxType::String => "syntax_string",
        SyntaxType::Number => "syntax_number",
        SyntaxType::Function => "syntax_function",
        SyntaxType::Operator => "syntax_operator",
        SyntaxType::Property => "syntax_property",
        SyntaxType::Variable => "syntax_variable",
    }
}

/// Spaces become "&nbsp;".
pub open spec fn escape_spaces(s: Seq<char>) -> Seq<char>
    decreases s.len(),
{
    if s.len() == 0 {
        s
    } else {
        escape_spaces(s.drop_last()) + if s.last() == ' ' {
            "&nbsp;"@
        } else {
            seq![s.last()]
        }
    }
}

pub open spec fn clamp(x: int, n: int) -> int {
    if x < n {
        x
    } else {
        n
    }
}

/// The characters of `input` that a piece covers, cut at the end of `input`.
pub open spec fn piece_text(input: Seq<char>, d: SyntaxData) -> Seq<char> {
    input.subrange(clamp(d.start as int, input.len() as int), clamp(d.start + d.length, input.len() as int))
}

/// One highlighted piece.
pub open spec fn piece_html(input: Seq<char>, d: SyntaxData) -> Seq<char> {
    "<span class=\"__renamer_"@ + class_of(d.syntax) + "\">"@ + escape_spaces(piece_text(input, d))
        + "</span>"@
}

/// The pieces highlighted one after the other.
pub open spec fn html_of(input: Seq<char>, pieces: Seq<SyntaxData>) -> Seq<char>
    decreases pieces.len(),
{
    if pieces.len() == 0 {
        Seq::empty()
    } else {
        html_of(input, pieces.drop_last()) + piece_html(input, pieces.last())
    }
}

impl Renamer {
    pub fn new(template: TemplateParser) -> (r: Renamer)
        ensures
            r.template == template,
    {
        Renamer { template }
    }

    /// HTML that shows `input` highlighted by the pieces of the template.
    pub fn generate_html(&self, input: &str) -> (r: String)
        ensures
            r@ == html_of(input@, self.template.syntax@),
    {
        let n = input.unicode_len();
        let mut out = String::new();
        let mut k: usize = 0;
        while k < self.template.syntax.len()
            invariant
                n == input@.len(),
                k <= self.template.syntax@.len(),
                out@ == html_of(input@, self.template.syntax@.subrange(0, k as int)),
            decreases self.template.syntax.len() - k,
        {
            let d = self.template.syntax[k];
            let a = if d.start < n {
                d.start
            } else {
                n
            };
            let b = if d.length <= n - a {
                a + d.length
            } else {
                n
            };
            assert(a as int == clamp(d.start as int, n as int));
            assert(b as int == clamp(d.start + d.length, n as int));
            let ghost base = out@ + "<span class=\"__renamer_"@ + class_of(d.syntax) + "\">"@;
            out.append("<span class=\"__renamer_");
            out.append(class_name(d.syntax));
            out.append("\">");
            assert(out@ =~= base + escape_spaces(input@.subrange(a as int, a as int)));
            let mut i: usize = a;
            while i < b
                invariant
                    n == input@.len(),
                    a <= i <= b <= n,
                    out@ == base + escape_spaces(input@.subrange(a as int, i as int)),
                decreases b - i,
            {
                let c = input.get_char(i);
                let ghost before = out@;
                if c == ' ' {
                    out.append("&nbsp;");
                } else {
                    out.append(input.substring_char(i, i + 1));
                    assert(input@.subrange(i as int, i + 1) =~= seq![c]);
                }
                proof {
                    let pre = input@.subrange(a as int, i + 1);
                    assert(pre.drop_last() =~= input@.subrange(a as int, i as int));
                    assert(pre.last() == c);
                    assert(out@ =~= base + escape_spaces(pre));
                }
                i = i + 1;
            }
            out.append("</span>");
            proof {
                let pre = self.template.syntax@.subrange(0, k + 1);
                assert(pre.drop_last() =~= self.template.syntax@.subrange(0, k as int));
                assert(pre.last() == d);
                assert(out@ =~= html_of(input@, pre));
            }
            k = k + 1;
        }
        assert(self.template.syntax@.subrange(0, k as int) =~= self.template.syntax@);
        out
    }
}

/// The settings of a renaming run.
#[derive(Clone, Debug)]
pub struct RenamerConfig {
    pub path: String,
    pub out_dir: Option<String>,
    pub template: String,
    pub copy: bool,
    pub subfolders: bool,
    pub overwrite: bool,
    pub separator: String,
    pub keep_subfolders: bool,
}

impl RenamerConfig {
    /// The default settings for a path and a template: rename in place, do not
    /// copy or overwrite, include subfolders, separate values with ", ".
    pub fn default_with_paths(path: &str, template: &str) -> (r: RenamerConfig)
        ensures
            r.path@ == path@,
            r.out_dir is None,
            r.template@ == template@,
            !r.copy,
            !r.overwrite,
            !r.keep_subfolders,
            r.separator@ == ", "@,
            r.subfolders,
    {
        RenamerConfig {
            path: String::from_str(path),
            out_dir: None,
            template: String::from_str(template),
            copy: false,
            overwrite: false,
            keep_subfolders: false,
            separator: String::from_str(", "),
            subfolders: true,
        }
    }
}

} // verus!
