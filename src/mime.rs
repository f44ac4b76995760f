//! Construction of multipart MIME documents for providers that take raw
//! message bytes.
use vstd::prelude::*;

verus! {

/// The value of a header: name, the separator `": "` and the value.
pub open spec fn field(name: Seq<char>, value: Seq<char>) -> Seq<char> {
    name + ": "@ + value
}

/// `items` joined by `sep`.
pub open spec fn joined(items: Seq<Seq<char>>, sep: Seq<char>) -> Seq<char>
    decreases items.len(),
{
    if items.len() == 0 {
        Seq::empty()
    } else if items.len() == 1 {
        items[0]
    } else {
        joined(items.drop_last(), sep) + sep + items.last()
    }
}

/// A header value that holds no line terminator character.
pub open spec fn single_line(s: Seq<char>) -> bool {
    forall|i: int| 0 <= i < s.len() ==> s[i] != '\r' && s[i] != '\n'
}

/// The views of a sequence of strings.
pub open spec fn views(s: Seq<String>) -> Seq<Seq<char>> {
    s.map_values(|l: String| l@)
}

/// The views of a sequence of string slices.
pub open spec fn str_views(s: Seq<&str>) -> Seq<Seq<char>> {
    s.map_values(|l: &str| l@)
}

/// The token that separates the parts of a document.
pub open spec fn boundary() -> Seq<char> {
    "fxa-email-service-mime-boundary"@
}

/// The line that opens each part.
pub open spec fn delimiter() -> Seq<char> {
    "--"@ + boundary()
}

/// The line that closes the last part.
pub open spec fn closing() -> Seq<char> {
    "--"@ + boundary() + "--"@
}

/// The four headers present in every document, in this order.
pub open spec fn standard_lines(from: Seq<char>, to: Seq<char>, subject: Seq<char>) -> Seq<
    Seq<char>,
> {
    seq![field("From"@, from), field("To"@, to), field("Subject"@, subject), "MIME-Version: 1.0"@]
}

/// The `Cc` header: present only for a non-empty list, comma-joined.
pub open spec fn cc_lines(cc: Seq<Seq<char>>) -> Seq<Seq<char>> {
    if cc.len() == 0 {
        Seq::empty()
    } else {
        seq![field("Cc"@, joined(cc, ", "@))]
    }
}

/// One line per custom header, in the order of the entries.
pub open spec fn custom_lines(headers: Seq<(Seq<char>, Seq<char>)>) -> Seq<Seq<char>> {
    headers.map_values(|h: (Seq<char>, Seq<char>)| field(h.0, h.1))
}

/// The multipart content type, its boundary parameter on a folded line, and
/// the blank line that ends the header block.
pub open spec fn envelope_lines() -> Seq<Seq<char>> {
    seq![
        "Content-Type: multipart/alternative;"@,
        " boundary=\""@ + boundary() + "\""@,
        Seq::empty(),
    ]
}

/// The plain-text part, holding the encoded text.
pub open spec fn text_part(body: Seq<char>) -> Seq<Seq<char>> {
    seq![
        delimiter(),
        "Content-Disposition: inline"@,
        "Content-Description: text"@,
        "Content-Transfer-Encoding: quoted-printable"@,
        "Content-Type: text/plain; charset=utf8"@,
        Seq::empty(),
        body,
        Seq::empty(),
    ]
}

/// The HTML alternative part.
pub open spec fn html_part(body: Seq<char>) -> Seq<Seq<char>> {
    seq![
        delimiter(),
        "Content-Disposition: inline"@,
        "Content-Description: html"@,
        "Content-Transfer-Encoding: 8bit"@,
        "Content-Type: text/html; charset=utf8"@,
        Seq::empty(),
        body,
        Seq::empty(),
    ]
}

/// The lines of the document built from these fields.
pub open spec fn mime_lines(
    from: Seq<char>,
    to: Seq<char>,
    cc: Seq<Seq<char>>,
    headers: Seq<(Seq<char>, Seq<char>)>,
    subject: Seq<char>,
    text: Seq<char>,
    html: Option<Seq<char>>,
) -> Seq<Seq<char>> {
    standard_lines(from, to, subject) + cc_lines(cc) + custom_lines(headers) + envelope_lines()
        + text_part(text) + match html {
        Some(h) => html_part(h),
        None => Seq::empty(),
    } + seq![closing()]
}

/// The custom headers given, none where absent.
pub open spec fn headers_view(headers: Option<&Headers>) -> Seq<(Seq<char>, Seq<char>)> {
    match headers {
        Some(h) => h@,
        None => Seq::empty(),
    }
}

/// Every header field can be written as one header line.
pub open spec fn representable(
    from: Seq<char>,
    to: Seq<char>,
    cc: Seq<Seq<char>>,
    headers: Seq<(Seq<char>, Seq<char>)>,
    subject: Seq<char>,
) -> bool {
    &&& single_line(from)
    &&& single_line(to)
    &&& single_line(subject)
    &&& forall|i: int| 0 <= i < cc.len() ==> single_line(#[trigger] cc[i])
    &&& forall|i: int|
        0 <= i < headers.len() ==> single_line((#[trigger] headers[i]).0) && single_line(
            headers[i].1,
        )
}

/// Custom headers: a mapping from name to value with unique names, kept in
/// the order in which names were first inserted.
pub struct Headers {
    entries: Vec<(String, String)>,
}

impl View for Headers {
    type V = Seq<(Seq<char>, Seq<char>)>;

    closed spec fn view(&self) -> Seq<(Seq<char>, Seq<char>)> {
        entry_views(self.entries@)
    }
}

/// The views of name and value pairs.
pub open spec fn entry_views(v: Seq<(String, String)>) -> Seq<(Seq<char>, Seq<char>)> {
    v.map_values(|e: (String, String)| (e.0@, e.1@))
}

/// No name occurs twice.
pub open spec fn unique_names(h: Seq<(Seq<char>, Seq<char>)>) -> bool {
    forall|i: int, j: int| 0 <= i < j < h.len() ==> (#[trigger] h[i]).0 != (#[trigger] h[j]).0
}

/// Whether `name` is one of the names.
pub open spec fn has_name(h: Seq<(Seq<char>, Seq<char>)>, name: Seq<char>) -> bool {
    exists|i: int| 0 <= i < h.len() && (#[trigger] h[i]).0 == name
}

impl Headers {
    /// Headers with no entry.
    pub fn new() -> (r: Headers)
        ensures
            r@ == Seq::<(Seq<char>, Seq<char>)>::empty(),
            unique_names(r@),
    {
        let r = Headers { entries: Vec::new() };
        assert(r@ =~= Seq::<(Seq<char>, Seq<char>)>::empty());
        r
    }

    #[verifier::type_invariant]
    spec fn names_unique(&self) -> bool {
        unique_names(self@)
    }

    /// Sets the value of `name`: in place where the name is present, as a
    /// new last entry where it is not.
    pub fn insert(&mut self, name: String, value: String)
        ensures
            unique_names(final(self)@),
            has_name(old(self)@, name@) ==> exists|i: int|
                0 <= i < old(self)@.len() && old(self)@[i].0 == name@ && final(self)@ == old(
                    self,
                )@.update(i, (name@, value@)),
            !has_name(old(self)@, name@) ==> final(self)@ == old(self)@.push((name@, value@)),
    {
        let mut taken = Headers::new();
        core::mem::swap(self, &mut taken);
        proof {
            use_type_invariant(&taken);
        }
        let ghost start = taken@;
        let Headers { mut entries } = taken;
        assert(entry_views(entries@) == start);
        let n = entries.len();
        let mut i: usize = 0;
        while i < n
            invariant
                n == entries@.len(),
                entry_views(entries@) == start,
                start == old(self)@,
                unique_names(start),
                0 <= i <= n,
                forall|k: int| 0 <= k < i ==> (#[trigger] start[k]).0 != name@,
            decreases n - i,
        {
            if entries[i].0 == name {
                assert(start[i as int].0 == name@);
                entries.set(i, (name, value));
                let ghost now = entry_views(entries@);
                assert(now =~= start.update(i as int, (name@, value@)));
                assert forall|a: int, b: int| 0 <= a < b < now.len() implies (#[trigger] now[a]).0
                    != (#[trigger] now[b]).0 by {
                    assert(now[a].0 == start[a].0 && now[b].0 == start[b].0);
                }
                *self = Headers { entries };
                return;
            }
            i = i + 1;
        }
        entries.push((name, value));
        assert(entry_views(entries@) =~= start.push((name@, value@)));
        *self = Headers { entries };
    }

    /// The number of entries.
    pub fn len(&self) -> (r: usize)
        ensures
            r == self@.len(),
    {
        self.entries.len()
    }

    /// The name and value of the entry at `i`.
    pub fn entry(&self, i: usize) -> (r: (&String, &String))
        requires
            i < self@.len(),
        ensures
            r.0@ == self@[i as int].0,
            r.1@ == self@[i as int].1,
    {
        (&self.entries[i].0, &self.entries[i].1)
    }
}

/// Why a document could not be built.
#[derive(Debug, PartialEq, Eq, Structural, Clone, Copy)]
pub enum MimeError {
    /// A header field holds a line terminator.
    LineBreakInHeader,
}

/// A multipart document, held as its entries: one per header line and per
/// separator line, and one for each part's body. A body entry may itself
/// hold `\r\n` (the encoded text wraps at 76 characters; the HTML is kept as
/// given), so an entry's position equals its line number on the wire only
/// while the bodies before it are single lines.
pub struct MimeDocument {
    lines: Vec<String>,
}

impl View for MimeDocument {
    type V = Seq<Seq<char>>;

    closed spec fn view(&self) -> Seq<Seq<char>> {
        views(self.lines@)
    }
}

fn push_line(lines: &mut Vec<String>, line: String)
    ensures
        views(final(lines)@) == views(old(lines)@).push(line@),
{
    let ghost before = lines@;
    lines.push(line);
    assert(views(lines@) =~= views(before).push(line@));
}

fn header_line(name: &str, value: &str) -> (r: String)
    ensures
        r@ == field(name@, value@),
{
    let mut r = String::from_str(name);
    r.append(": ");
    r.append(value);
    r
}

fn is_single_line(s: &str) -> (r: bool)
    ensures
        r == single_line(s@),
{
    let n = s.unicode_len();
    let mut i: usize = 0;
    while i < n
        invariant
            n == s@.len(),
            0 <= i <= n,
            forall|k: int| 0 <= k < i ==> s@[k] != '\r' && s@[k] != '\n',
        decreases n - i,
    {
        let c = s.get_char(i);
        if c == '\r' || c == '\n' {
            return false;
        }
        i = i + 1;
    }
    true
}

fn fields_representable(
    from: &str,
    to: &str,
    cc: &[&str],
    headers: Option<&Headers>,
    subject: &str,
) -> (r: bool)
    ensures
        r == representable(
            from@,
            to@,
            str_views(cc@),
            headers_view(headers),
            subject@,
        ),
{
    let ghost hv = headers_view(headers);
    if !is_single_line(from) || !is_single_line(to) || !is_single_line(subject) {
        return false;
    }
    let mut i: usize = 0;
    while i < cc.len()
        invariant
            0 <= i <= cc@.len(),
            hv == headers_view(headers),
            forall|k: int| 0 <= k < i ==> single_line(#[trigger] str_views(cc@)[k]),
        decreases cc@.len() - i,
    {
        if !is_single_line(cc[i]) {
            assert(!single_line(str_views(cc@)[i as int]));
            return false;
        }
        i = i + 1;
    }
    if let Some(h) = headers {
        assert(hv == h@);
        let n = h.len();
        let mut j: usize = 0;
        while j < n
            invariant
                n == h@.len(),
                hv == h@,
                hv == headers_view(headers),
                0 <= j <= n,
                forall|k: int|
                    0 <= k < j ==> single_line((#[trigger] h@[k]).0) && single_line(h@[k].1),
            decreases n - j,
        {
            let (name, value) = h.entry(j);
            if !is_single_line(name.as_str()) || !is_single_line(value.as_str()) {
                assert(hv[j as int] == h@[j as int]);
                assert(!(single_line(hv[j as int].0) && single_line(hv[j as int].1)));
                return false;
            }
            j = j + 1;
        }
    }
    true
}

fn cc_value(cc: &[&str]) -> (r: String)
    requires
        cc@.len() > 0,
    ensures
        r@ == joined(str_views(cc@), ", "@),
{
    let ghost cv = str_views(cc@);
    let mut r = String::from_str(cc[0]);
    assert(cv.subrange(0, 1).drop_last() =~= Seq::<Seq<char>>::empty());
    assert(cv.subrange(0, 1) =~= seq![cv[0]]);
    let mut i: usize = 1;
    while i < cc.len()
        invariant
            1 <= i <= cc@.len(),
            cv == str_views(cc@),
            r@ == joined(cv.subrange(0, i as int), ", "@),
        decreases cc@.len() - i,
    {
        r.append(", ");
        r.append(cc[i]);
        assert(cv.subrange(0, i + 1).drop_last() =~= cv.subrange(0, i as int));
        i = i + 1;
    }
    assert(cv.subrange(0, cc@.len() as int) =~= cv);
    r
}

fn push_part(
    lines: &mut Vec<String>,
    description: &str,
    encoding: &str,
    content_type: &str,
    body: &str,
)
    ensures
        views(final(lines)@) == views(old(lines)@) + seq![
            delimiter(),
            "Content-Disposition: inline"@,
            description@,
            encoding@,
            content_type@,
            Seq::empty(),
            body@,
            Seq::empty(),
        ],
{
    let ghost before = views(lines@);
    let mut d = String::from_str("--");
    d.append("fxa-email-service-mime-boundary");
    push_line(lines, d);
    push_line(lines, String::from_str("Content-Disposition: inline"));
    push_line(lines, String::from_str(description));
    push_line(lines, String::from_str(encoding));
    push_line(lines, String::from_str(content_type));
    push_line(lines, String::new());
    push_line(lines, String::from_str(body));
    push_line(lines, String::new());
    assert(views(lines@) =~= before + seq![
        delimiter(),
        "Content-Disposition: inline"@,
        description@,
        encoding@,
        content_type@,
        Seq::empty(),
        body@,
        Seq::empty(),
    ]);
}

/// The HTML body given, if any.
pub open spec fn html_view(body_html: Option<&str>) -> Option<Seq<char>> {
    match body_html {
        Some(h) => Some(h@),
        None => None,
    }
}

/// The quoted-printable encoding of a text (RFC 2045, section 6.7), its
/// line breaks kept as line breaks and its lines wrapped at 76 characters.
pub uninterp spec fn quoted_printable_of(text: Seq<char>) -> Seq<char>;

/// Relies on quoted_printable::encode_to_str, in text mode: the encoding
/// depends on the text alone.
#[verifier::external_body]
fn encode_quoted_printable(text: &str) -> (r: String)
    ensures
        r@ == quoted_printable_of(text@),
{
    quoted_printable::encode_to_str(text)
}

/// Builds a multipart document: the standard headers, the `Cc` header when
/// `cc` is non-empty, the custom headers in order, the plain-text part with
/// `body_text` quoted-printable encoded and, when `body_html` is given, an
/// HTML alternative part. Fails exactly when a header field holds a line
/// terminator.
pub fn build_multipart_mime(
    from: &str,
    to: &str,
    cc: &[&str],
    headers: Option<&Headers>,
    subject: &str,
    body_text: &str,
    body_html: Option<&str>,
) -> (r: Result<MimeDocument, MimeError>)
    ensures
        r is Ok <==> representable(from@, to@, str_views(cc@), headers_view(headers), subject@),
        r is Err ==> r == Err::<MimeDocument, MimeError>(MimeError::LineBreakInHeader),
        r matches Ok(d) ==> d@ == mime_lines(
            from@,
            to@,
            str_views(cc@),
            headers_view(headers),
            subject@,
            quoted_printable_of(body_text@),
            html_view(body_html),
        ),
{
    let encoded = encode_quoted_printable(body_text);
    assemble_multipart_mime(from, to, cc, headers, subject, encoded.as_str(), body_html)
}

/// Assembles a multipart document whose plain-text part holds
/// `encoded_text`, already quoted-printable encoded. Fails exactly when a
/// header field holds a line terminator.
pub fn assemble_multipart_mime(
    from: &str,
    to: &str,
    cc: &[&str],
    headers: Option<&Headers>,
    subject: &str,
    encoded_text: &str,
    body_html: Option<&str>,
) -> (r: Result<MimeDocument, MimeError>)
    ensures
        r is Ok <==> representable(from@, to@, str_views(cc@), headers_view(headers), subject@),
        r is Err ==> r == Err::<MimeDocument, MimeError>(MimeError::LineBreakInHeader),
        r matches Ok(d) ==> d@ == mime_lines(
            from@,
            to@,
            str_views(cc@),
            headers_view(headers),
            subject@,
            encoded_text@,
            html_view(body_html),
        ),
{
    if !fields_representable(from, to, cc, headers, subject) {
        return Err(MimeError::LineBreakInHeader);
    }
    let ghost hv = headers_view(headers);
    let mut lines: Vec<String> = Vec::new();
    push_line(&mut lines, header_line("From", from));
    push_line(&mut lines, header_line("To", to));
    push_line(&mut lines, header_line("Subject", subject));
    push_line(&mut lines, String::from_str("MIME-Version: 1.0"));
    assert(views(lines@) =~= standard_lines(from@, to@, subject@));
    if cc.len() > 0 {
        let value = cc_value(cc);
        push_line(&mut lines, header_line("Cc", value.as_str()));
    }
    assert(views(lines@) =~= standard_lines(from@, to@, subject@) + cc_lines(str_views(cc@)));
    let ghost prefix = views(lines@);
    if let Some(h) = headers {
        let n = h.len();
        let mut j: usize = 0;
        while j < n
            invariant
                n == h@.len(),
                hv == h@,
                0 <= j <= n,
                views(lines@) == prefix + custom_lines(h@.subrange(0, j as int)),
            decreases n - j,
        {
            let (name, value) = h.entry(j);
            push_line(&mut lines, header_line(name.as_str(), value.as_str()));
            assert(custom_lines(h@.subrange(0, j + 1)) =~= custom_lines(
                h@.subrange(0, j as int),
            ).push(field(h@[j as int].0, h@[j as int].1)));
            j = j + 1;
        }
        assert(h@.subrange(0, n as int) =~= h@);
    } else {
        assert(custom_lines(hv) =~= Seq::<Seq<char>>::empty());
    }
    assert(views(lines@) == prefix + custom_lines(hv));
    push_line(&mut lines, String::from_str("Content-Type: multipart/alternative;"));
    let mut b = String::from_str(" boundary=\"");
    b.append("fxa-email-service-mime-boundary");
    b.append("\"");
    push_line(&mut lines, b);
    push_line(&mut lines, String::new());
    assert(views(lines@) =~= prefix + custom_lines(hv) + envelope_lines());
    let ghost head = views(lines@);
    push_part(
        &mut lines,
        "Content-Description: text",
        "Content-Transfer-Encoding: quoted-printable",
        "Content-Type: text/plain; charset=utf8",
        encoded_text,
    );
    assert(views(lines@) =~= head + text_part(encoded_text@));
    let ghost with_text = views(lines@);
    if let Some(html) = body_html {
        push_part(
            &mut lines,
            "Content-Description: html",
            "Content-Transfer-Encoding: 8bit",
            "Content-Type: text/html; charset=utf8",
            html,
        );
        assert(views(lines@) =~= with_text + html_part(html@));
    } else {
        assert(views(lines@) =~= with_text + Seq::<Seq<char>>::empty());
    }
    let mut c = String::from_str("--");
    c.append("fxa-email-service-mime-boundary");
    c.append("--");
    push_line(&mut lines, c);
    let d = MimeDocument { lines };
    assert(d@ =~= mime_lines(
        from@,
        to@,
        str_views(cc@),
        hv,
        subject@,
        encoded_text@,
        html_view(body_html),
    ));
    Ok(d)
}

impl MimeDocument {
    /// The number of lines.
    pub fn len(&self) -> (r: usize)
        ensures
            r == self@.len(),
    {
        self.lines.len()
    }

    /// The line at `i`.
    pub fn line(&self, i: usize) -> (r: &String)
        requires
            i < self@.len(),
        ensures
            r@ == self@[i as int],
    {
        &self.lines[i]
    }

    /// The wire form: the lines joined by `\r\n`.
    pub fn to_string(&self) -> (r: String)
        ensures
            r@ == joined(self@, "\r\n"@),
    {
        let ghost v = self@;
        let n = self.lines.len();
        if n == 0 {
            return String::new();
        }
        let mut r = self.lines[0].clone();
        assert(v.subrange(0, 1).drop_last() =~= Seq::<Seq<char>>::empty());
        assert(v.subrange(0, 1) =~= seq![v[0]]);
        let mut i: usize = 1;
        while i < n
            invariant
                1 <= i <= n,
                n == v.len(),
                v == self@,
                r@ == joined(v.subrange(0, i as int), "\r\n"@),
            decreases n - i,
        {
            r.append("\r\n");
            r.append(self.lines[i].as_str());
            assert(v.subrange(0, i + 1).drop_last() =~= v.subrange(0, i as int));
            i = i + 1;
        }
        assert(v.subrange(0, n as int) =~= v);
        r
    }
}

/// Where each entry of a built document stands. Header entries are single
/// lines whenever the document was built (`representable`), so their
/// positions are line numbers on the wire; the part entries after `text` and
/// `html` are line numbers on the wire when those bodies are single lines.
/// `From`, `To`, `Subject` and `MIME-Version` are the first four entries. A
/// `Cc` entry follows only for a non-empty list, then one entry per custom
/// header, in order. The plain-text
/// part, holding `text`, then stands at a position fixed by those counts;
/// the HTML part, only when an HTML body is given, comes after it, and the
/// document ends there.
pub proof fn lemma_mime_layout(
    from: Seq<char>,
    to: Seq<char>,
    cc: Seq<Seq<char>>,
    headers: Seq<(Seq<char>, Seq<char>)>,
    subject: Seq<char>,
    text: Seq<char>,
    html: Option<Seq<char>>,
)
    ensures
        ({
            let d = mime_lines(from, to, cc, headers, subject, text, html);
            let n_cc: int = if cc.len() > 0 {
                1
            } else {
                0
            };
            let k = 4 + n_cc + headers.len();
            &&& d[0] == field("From"@, from)
            &&& d[1] == field("To"@, to)
            &&& d[2] == field("Subject"@, subject)
            &&& d[3] == "MIME-Version: 1.0"@
            &&& cc.len() > 0 ==> d[4] == field("Cc"@, joined(cc, ", "@))
            &&& forall|i: int|
                0 <= i < headers.len() ==> d[4 + n_cc + i] == field(
                    (#[trigger] headers[i]).0,
                    headers[i].1,
                )
            &&& d[k] == "Content-Type: multipart/alternative;"@
            &&& d[k + 6] == "Content-Transfer-Encoding: quoted-printable"@
            &&& d[k + 7] == "Content-Type: text/plain; charset=utf8"@
            &&& d[k + 9] == text
            &&& html is None ==> d.len() == k + 12
            &&& html matches Some(h) ==> {
                &&& d.len() == k + 20
                &&& d[k + 11] == delimiter()
                &&& d[k + 14] == "Content-Transfer-Encoding: 8bit"@
                &&& d[k + 15] == "Content-Type: text/html; charset=utf8"@
                &&& d[k + 17] == h
            }
        }),
{
    let d = mime_lines(from, to, cc, headers, subject, text, html);
    let n_cc: int = if cc.len() > 0 {
        1
    } else {
        0
    };
    let k = 4 + n_cc + headers.len();
    let front = standard_lines(from, to, subject) + cc_lines(cc) + custom_lines(headers);
    assert(front.len() == k);
    assert forall|i: int| 0 <= i < headers.len() implies d[4 + n_cc + i] == field(
        (#[trigger] headers[i]).0,
        headers[i].1,
    ) by {
        assert(d[4 + n_cc + i] == front[4 + n_cc + i]);
    }
    assert(d[k] == envelope_lines()[0]);
    assert(d[k + 6] == text_part(text)[3]);
    assert(d[k + 7] == text_part(text)[4]);
    assert(d[k + 9] == text_part(text)[6]);
    if let Some(h) = html {
        assert(d[k + 11] == html_part(h)[0]);
        assert(d[k + 14] == html_part(h)[3]);
        assert(d[k + 15] == html_part(h)[4]);
        assert(d[k + 17] == html_part(h)[6]);
    }
}

} // verus!
