//! Text helpers: durations, grouped numbers, versions and page addresses.

use crate::decimal::{append_decimal, decimal, digit_char, digit_str, signed_decimal};
use vstd::prelude::*;
use vstd::string::{StrSliceExecFns, StringExecFns, StringSliceAdditionalSpecFns};

verus! {

/// Quotient of `a` by a positive `b`, rounded towards zero.
pub open spec fn trunc_div(a: int, b: int) -> int {
    if a >= 0 {
        a / b
    } else {
        -((-a) / b)
    }
}

/// Remainder of `a` by a positive `b`, with the sign of `a`.
pub open spec fn trunc_rem(a: int, b: int) -> int {
    if a >= 0 {
        a % b
    } else {
        -((-a) % b)
    }
}

/// A number in at least two characters: a single digit gets a leading zero,
/// a negative number its minus sign and no padding.
pub open spec fn two_wide(x: int) -> Seq<char> {
    if 0 <= x < 10 {
        seq!['0'] + decimal(x as nat)
    } else {
        signed_decimal(x)
    }
}

/// `hh:mm:ss` for a number of seconds; each part is rounded towards zero and
/// carries the sign of the whole.
pub open spec fn duration_text(seconds: int) -> Seq<char> {
    two_wide(trunc_div(seconds, 3600)) + seq![':'] + two_wide(
        trunc_div(trunc_rem(seconds, 3600), 60),
    ) + seq![':'] + two_wide(trunc_rem(seconds, 60))
}

/// Appends `x` in at least two characters.
fn append_two_wide(out: &mut String, x: i32)
    ensures
        final(out)@ == old(out)@ + two_wide(x as int),
{
    proof {
        reveal_strlit("0");
        reveal_strlit("-");
    }
    if x < 0 {
        out.append("-");
        let magnitude: u64 = (-(x as i64)) as u64;
        append_decimal(out, magnitude);
        assert(out@ =~= old(out)@ + two_wide(x as int));
    } else {
        if x < 10 {
            out.append("0");
        }
        append_decimal(out, x as u64);
        assert(out@ =~= old(out)@ + two_wide(x as int));
    }
}

/// Splits `seconds` into hours, minutes and seconds, each rounded towards
/// zero.
fn split_duration(seconds: i32) -> (parts: (i32, i32, i32))
    ensures
        parts.0 == trunc_div(seconds as int, 3600),
        parts.1 == trunc_div(trunc_rem(seconds as int, 3600), 60),
        parts.2 == trunc_rem(seconds as int, 60),
{
    if seconds >= 0 {
        (seconds / 3600, (seconds % 3600) / 60, seconds % 60)
    } else {
        let m: i64 = -(seconds as i64);
        let h: i64 = m / 3600;
        let r: i64 = m % 3600;
        let mi: i64 = r / 60;
        let s: i64 = m % 60;
        ((-h) as i32, (-mi) as i32, (-s) as i32)
    }
}

/// Renders a duration in seconds as `hh:mm:ss`. A missing duration reads as
/// zero.
pub fn format_duration(seconds: Option<i32>) -> (res: String)
    ensures
        res@ == duration_text(
            match seconds {
                Some(s) => s as int,
                None => 0,
            },
        ),
{
    let seconds: i32 = match seconds {
        Some(s) => s,
        None => 0,
    };
    let (hours, minutes, secs) = split_duration(seconds);
    proof {
        reveal_strlit(":");
    }
    let mut out = String::new();
    append_two_wide(&mut out, hours);
    out.append(":");
    append_two_wide(&mut out, minutes);
    out.append(":");
    append_two_wide(&mut out, secs);
    assert(out@ =~= duration_text(seconds as int));
    out
}

/// The three digits of a number below one thousand, leading zeros kept.
pub open spec fn three_digits(n: nat) -> Seq<char> {
    seq![digit_char((n / 100) as int), digit_char(((n / 10) % 10) as int), digit_char((n % 10) as int)]
}

/// The decimal digits of `n` in groups of three, counted from the right,
/// with one space between groups.
pub open spec fn spaced(n: nat) -> Seq<char>
    decreases n,
{
    if n < 1000 {
        decimal(n)
    } else {
        spaced(n / 1000) + seq![' '] + three_digits(n % 1000)
    }
}

/// Appends the grouped digits of `n`.
fn append_spaced(out: &mut String, n: u32)
    ensures
        final(out)@ == old(out)@ + spaced(n as nat),
    decreases n,
{
    if n < 1000 {
        append_decimal(out, n as u64);
    } else {
        append_spaced(out, n / 1000);
        proof {
            reveal_strlit(" ");
        }
        out.append(" ");
        let low: u32 = n % 1000;
        out.append(digit_str((low / 100) as u8));
        out.append(digit_str(((low / 10) % 10) as u8));
        out.append(digit_str((low % 10) as u8));
        assert(out@ =~= old(out)@ + spaced(n as nat));
    }
}

/// Renders a number with a space between each group of three digits:
/// 4978521 reads `4 978 521`.
pub fn format_with_spaces(number: u32) -> (res: String)
    ensures
        res@ == spaced(number as nat),
{
    let mut out = String::new();
    append_spaced(&mut out, number);
    assert(out@ =~= spaced(number as nat));
    out
}

/// Index of the first `c` in `s` at or after `from`, or the length of `s`
/// where there is none.
pub open spec fn next_index(s: Seq<char>, c: char, from: int) -> int
    decreases s.len() - from,
{
    if from >= s.len() {
        s.len() as int
    } else if s[from] == c {
        from
    } else {
        next_index(s, c, from + 1)
    }
}

/// `next_index` is the one index at or after `from` that holds `c` (or is
/// the end) with no `c` before it.
pub proof fn lemma_next_index(s: Seq<char>, c: char, from: int, at: int)
    requires
        0 <= from <= at <= s.len(),
        forall|k: int| from <= k < at ==> s[k] != c,
        at == s.len() || s[at] == c,
    ensures
        next_index(s, c, from) == at,
    decreases at - from,
{
    if from < at {
        lemma_next_index(s, c, from + 1, at);
    }
}

/// Finds the first `c` in `text` at or after the character index `from`.
/// `len` is the number of characters of `text`.
fn find_char(text: &str, c: char, from: usize, len: usize) -> (at: usize)
    requires
        len == text@.len(),
        from <= len,
    ensures
        at == next_index(text@, c, from as int),
        from <= at <= len,
{
    let mut i: usize = from;
    while i < len
        invariant
            from <= i <= len,
            len == text@.len(),
            forall|k: int| from <= k < i ==> text@[k] != c,
        decreases len - i,
    {
        if text.get_char(i) == c {
            proof {
                lemma_next_index(text@, c, from as int, i as int);
            }
            return i;
        }
        i += 1;
    }
    proof {
        lemma_next_index(text@, c, from as int, len as int);
    }
    len
}

/// The first two parts of a dotted version, with the dot between them:
/// everything before the second `.`.
pub open spec fn major_minor(s: Seq<char>) -> Seq<char> {
    s.take(next_index(s, '.', next_index(s, '.', 0) + 1))
}

/// Keeps the major and minor part of a dotted version: `14.23.1` reads
/// `14.23`. The version must hold at least one `.`.
pub fn version_to_major_minor(version: &str) -> (res: String)
    requires
        version@.contains('.'),
    ensures
        res@ == major_minor(version@),
{
    let len: usize = version.unicode_len();
    let first: usize = find_char(version, '.', 0, len);
    proof {
        let k = choose|k: int| 0 <= k < version@.len() && version@[k] == '.';
        if first == len {
            lemma_next_index_none(version@, '.', 0, k);
        }
    }
    let end: usize = find_char(version, '.', first + 1, len);
    String::from_str(version.substring_char(0, end))
}

/// Where `next_index` reaches the end, no `c` stands at or after `from`.
pub proof fn lemma_next_index_none(s: Seq<char>, c: char, from: int, k: int)
    requires
        0 <= from <= k < s.len(),
        next_index(s, c, from) == s.len(),
    ensures
        s[k] != c,
    decreases k - from,
{
    if from < k {
        lemma_next_index_none(s, c, from + 1, k);
    }
}

/// Bytes that percent-encoding leaves as they are: ASCII letters and digits
/// and `-`, `.`, `_`, `~`.
pub open spec fn is_unreserved(b: u8) -> bool {
    ||| 0x30 <= b <= 0x39
    ||| 0x41 <= b <= 0x5a
    ||| 0x61 <= b <= 0x7a
    ||| b == 0x2d
    ||| b == 0x2e
    ||| b == 0x5f
    ||| b == 0x7e
}

/// The upper-case hexadecimal digit of a number below sixteen.
pub open spec fn hex_upper(n: int) -> char {
    if n < 10 {
        digit_char(n)
    } else if n == 10 {
        'A'
    } else if n == 11 {
        'B'
    } else if n == 12 {
        'C'
    } else if n == 13 {
        'D'
    } else if n == 14 {
        'E'
    } else {
        'F'
    }
}

/// One byte, percent-encoded: itself where it is unreserved, else `%` and
/// its two hexadecimal digits.
pub open spec fn encoded_byte(b: u8) -> Seq<char> {
    if is_unreserved(b) {
        seq![b as char]
    } else {
        seq!['%', hex_upper(b as int / 16), hex_upper(b as int % 16)]
    }
}

/// The percent-encoding of a byte string, byte by byte.
pub open spec fn percent_encoded(bytes: Seq<u8>) -> Seq<char>
    decreases bytes.len(),
{
    if bytes.len() == 0 {
        Seq::empty()
    } else {
        percent_encoded(bytes.drop_last()) + encoded_byte(bytes.last())
    }
}

/// A text without `%`: nothing in it is percent-encoded.
pub open spec fn is_plain(text: Seq<char>) -> bool {
    !text.contains('%')
}

/// What `urlencoding::decode` makes of a text: the percent-decoded text, or
/// nothing where the decoded bytes are not UTF-8.
pub uninterp spec fn url_decoded(text: Seq<char>) -> Option<Seq<char>>;

/// `urlencoding::encode`, as an owned string: every byte of the UTF-8 form
/// of `text` that is not an ASCII letter, a digit or one of `-`, `.`, `_`,
/// `~` is replaced by `%` and its two upper-case hexadecimal digits.
#[verifier::external_body]
fn url_encode(text: &str) -> (res: String)
    ensures
        res@ == percent_encoded(text.spec_bytes()),
{
    urlencoding::encode(text).into_owned()
}

/// `urlencoding::decode`, as an owned string, with its error turned into
/// `None`. A text without `%` decodes to itself.
#[verifier::external_body]
fn url_decode(text: &str) -> (res: Option<String>)
    ensures
        res is Some <==> url_decoded(text@) is Some,
        res matches Some(decoded) ==> url_decoded(text@) == Some(decoded@),
        is_plain(text@) ==> res is Some && res->0@ == text@,
{
    match urlencoding::decode(text) {
        Ok(decoded) => Some(decoded.into_owned()),
        Err(_) => None,
    }
}

/// The slug of a player: the encoded name, `-`, the encoded tag.
pub open spec fn slug_text(game_name: Seq<u8>, tag_line: Seq<u8>) -> Seq<char> {
    percent_encoded(game_name) + seq!['-'] + percent_encoded(tag_line)
}

/// The address part that names a player: name and tag, each
/// percent-encoded, joined by `-`.
pub fn summoner_to_slug(game_name: &str, tag_line: &str) -> (res: String)
    ensures
        res@ == slug_text(game_name.spec_bytes(), tag_line.spec_bytes()),
{
    proof {
        reveal_strlit("-");
    }
    let mut out = url_encode(game_name);
    out.append("-");
    let tag = url_encode(tag_line);
    out.append(tag.as_str());
    assert(out@ =~= slug_text(game_name.spec_bytes(), tag_line.spec_bytes()));
    out
}

/// The part of a slug before its first `-`.
pub open spec fn slug_name_part(slug: Seq<char>) -> Seq<char> {
    slug.take(next_index(slug, '-', 0))
}

/// The part of a slug after its `-`, where the slug holds exactly one.
pub open spec fn slug_tag_part(slug: Seq<char>) -> Option<Seq<char>> {
    let dash = next_index(slug, '-', 0);
    if dash < slug.len() && next_index(slug, '-', dash + 1) == slug.len() {
        Some(slug.skip(dash + 1))
    } else {
        None
    }
}

/// The two parts of a slug as they are written: what stands before the
/// first `-`, and what stands after it where the slug holds exactly one,
/// else the empty text.
pub open spec fn slug_split(slug: Seq<char>) -> (Seq<char>, Seq<char>) {
    (
        slug_name_part(slug),
        match slug_tag_part(slug) {
            Some(tag) => tag,
            None => Seq::empty(),
        },
    )
}

/// Whether both parts of a slug can be decoded.
pub open spec fn slug_decodes(slug: Seq<char>) -> bool {
    &&& url_decoded(slug_name_part(slug)) is Some
    &&& slug_tag_part(slug) matches Some(tag) ==> url_decoded(tag) is Some
}

/// Name and tag of a slug: the decoded part before the first `-`, and the
/// decoded part after it where the slug holds exactly one `-`, else the
/// empty text.
pub open spec fn slug_parsed(slug: Seq<char>) -> (Seq<char>, Seq<char>) {
    (
        url_decoded(slug_name_part(slug))->0,
        match slug_tag_part(slug) {
            Some(tag) => url_decoded(tag)->0,
            None => Seq::empty(),
        },
    )
}

/// Splits a slug into name and tag and decodes both. A slug without `-`, or
/// with more than one, has an empty tag. Both parts must decode.
pub fn parse_summoner_slug(slug: &str) -> (res: (String, String))
    requires
        slug_decodes(slug@),
    ensures
        res.0@ == slug_parsed(slug@).0,
        res.1@ == slug_parsed(slug@).1,
        is_plain(slug@) ==> res.0@ == slug_split(slug@).0 && res.1@ == slug_split(slug@).1,
{
    let len: usize = slug.unicode_len();
    let dash: usize = find_char(slug, '-', 0, len);
    proof {
        if is_plain(slug@) {
            lemma_parts_of_plain(slug@);
        }
    }
    let game_name = url_decode(slug.substring_char(0, dash)).unwrap();
    if dash < len {
        let second: usize = find_char(slug, '-', dash + 1, len);
        if second == len {
            let tag = url_decode(slug.substring_char(dash + 1, len)).unwrap();
            return (game_name, tag);
        }
    }
    (game_name, String::new())
}

/// `parse_summoner_slug` for any slug: `None` where a part does not decode.
pub fn try_parse_summoner_slug(slug: &str) -> (res: Option<(String, String)>)
    ensures
        res is Some <==> slug_decodes(slug@),
        res matches Some(parts) ==> parts.0@ == slug_parsed(slug@).0 && parts.1@ == slug_parsed(
            slug@,
        ).1,
        is_plain(slug@) ==> res is Some,
        is_plain(slug@) ==> (res matches Some(parts) ==> parts.0@ == slug_split(slug@).0
            && parts.1@ == slug_split(slug@).1),
{
    let len: usize = slug.unicode_len();
    let dash: usize = find_char(slug, '-', 0, len);
    proof {
        if is_plain(slug@) {
            lemma_parts_of_plain(slug@);
        }
    }
    if url_decode(slug.substring_char(0, dash)).is_none() {
        return None;
    }
    if dash < len {
        let second: usize = find_char(slug, '-', dash + 1, len);
        if second == len && url_decode(slug.substring_char(dash + 1, len)).is_none() {
            return None;
        }
    }
    Some(parse_summoner_slug(slug))
}

/// Address of a player's page.
pub open spec fn summoner_url_text(
    platform: Seq<char>,
    game_name: Seq<u8>,
    tag_line: Seq<u8>,
) -> Seq<char> {
    "/platform/"@ + platform + "/summoners/"@ + slug_text(game_name, tag_line)
}

/// Address of a player's page: `/platform/{platform}/summoners/{slug}`.
pub fn summoner_url(platform: &str, game_name: &str, tag_line: &str) -> (res: String)
    ensures
        res@ == summoner_url_text(platform@, game_name.spec_bytes(), tag_line.spec_bytes()),
{
    let mut out = String::from_str("/platform/");
    out.append(platform);
    out.append("/summoners/");
    let slug = summoner_to_slug(game_name, tag_line);
    out.append(slug.as_str());
    assert(out@ =~= summoner_url_text(platform@, game_name.spec_bytes(), tag_line.spec_bytes()));
    out
}

/// Address of the page shown for a player that is not known. Name and tag
/// are written as they are.
pub open spec fn summoner_not_found_url_text(
    platform: Seq<char>,
    game_name: Seq<char>,
    tag_line: Seq<char>,
) -> Seq<char> {
    "/platform/"@ + platform + "?game_name="@ + game_name + "&tag_line="@ + tag_line
}

/// Address of the page shown for a player that is not known:
/// `/platform/{platform}?game_name={name}&tag_line={tag}`.
pub fn summoner_not_found_url(platform: &str, game_name: &str, tag_line: &str) -> (res: String)
    ensures
        res@ == summoner_not_found_url_text(platform@, game_name@, tag_line@),
{
    let mut out = String::from_str("/platform/");
    out.append(platform);
    out.append("?game_name=");
    out.append(game_name);
    out.append("&tag_line=");
    out.append(tag_line);
    assert(out@ =~= summoner_not_found_url_text(platform@, game_name@, tag_line@));
    out
}

/// Address of the page that lists the matches of one player with another.
pub open spec fn summoner_encounter_url_text(
    platform: Seq<char>,
    game_name: Seq<u8>,
    tag_line: Seq<u8>,
    encounter_platform: Seq<char>,
    encounter_game_name: Seq<u8>,
    encounter_tag_line: Seq<u8>,
) -> Seq<char> {
    "/platform/"@ + platform + "/summoners/"@ + slug_text(game_name, tag_line)
        + "?tab=encounter&encounter_slug="@ + slug_text(encounter_game_name, encounter_tag_line)
        + "&encounter_platform="@ + encounter_platform
}

/// Address of the page that lists the matches of one player with another:
/// the player's page with the other player's slug and platform as query.
pub fn summoner_encounter_url(
    platform: &str,
    game_name: &str,
    tag_line: &str,
    encounter_platform: &str,
    encounter_game_name: &str,
    encounter_tag_line: &str,
) -> (res: String)
    ensures
        res@ == summoner_encounter_url_text(
            platform@,
            game_name.spec_bytes(),
            tag_line.spec_bytes(),
            encounter_platform@,
            encounter_game_name.spec_bytes(),
            encounter_tag_line.spec_bytes(),
        ),
{
    let mut out = String::from_str("/platform/");
    out.append(platform);
    out.append("/summoners/");
    let slug = summoner_to_slug(game_name, tag_line);
    out.append(slug.as_str());
    out.append("?tab=encounter&encounter_slug=");
    let other = summoner_to_slug(encounter_game_name, encounter_tag_line);
    out.append(other.as_str());
    out.append("&encounter_platform=");
    out.append(encounter_platform);
    assert(out@ =~= summoner_encounter_url_text(
        platform@,
        game_name.spec_bytes(),
        tag_line.spec_bytes(),
        encounter_platform@,
        encounter_game_name.spec_bytes(),
        encounter_tag_line.spec_bytes(),
    ));
    out
}

/// `s` with its spaces taken out.
pub open spec fn without_spaces(s: Seq<char>) -> Seq<char>
    decreases s.len(),
{
    if s.len() == 0 {
        Seq::empty()
    } else if s.last() == ' ' {
        without_spaces(s.drop_last())
    } else {
        without_spaces(s.drop_last()).push(s.last())
    }
}

/// Taking the spaces out of two texts in a row is taking them out of each.
pub proof fn lemma_without_spaces_add(a: Seq<char>, b: Seq<char>)
    ensures
        without_spaces(a + b) == without_spaces(a) + without_spaces(b),
    decreases b.len(),
{
    if b.len() == 0 {
        assert(a + b =~= a);
        assert(without_spaces(a) + without_spaces(b) =~= without_spaces(a));
    } else {
        assert((a + b).drop_last() =~= a + b.drop_last());
        assert((a + b).last() == b.last());
        lemma_without_spaces_add(a, b.drop_last());
        assert(without_spaces(a + b) =~= without_spaces(a) + without_spaces(b));
    }
}

/// A text of one character without its spaces.
pub proof fn lemma_without_spaces_one(c: char)
    ensures
        without_spaces(seq![c]) == if c == ' ' {
            Seq::<char>::empty()
        } else {
            seq![c]
        },
{
    let s = seq![c];
    assert(s.drop_last() =~= Seq::<char>::empty());
    assert(without_spaces(Seq::<char>::empty()) =~= Seq::<char>::empty());
    assert(s.last() == c);
    if c != ' ' {
        assert(without_spaces(s) =~= s);
    }
}

/// The decimal text of a number holds no space.
pub proof fn lemma_decimal_has_no_space(n: nat)
    ensures
        without_spaces(decimal(n)) == decimal(n),
    decreases n,
{
    if n < 10 {
        lemma_without_spaces_one(digit_char(n as int));
    } else {
        lemma_decimal_has_no_space(n / 10);
        assert(decimal(n).drop_last() =~= decimal(n / 10));
    }
}

/// From a thousand on, the decimal text of a number is that of its
/// thousands followed by the three digits of the rest.
pub proof fn lemma_decimal_by_thousands(n: nat)
    requires
        n >= 1000,
    ensures
        decimal(n) == decimal(n / 1000) + three_digits(n % 1000),
{
    let a = n / 10;
    let b = a / 10;
    assert(b / 10 == n / 1000);
    assert(b % 10 == (n % 1000) / 100);
    assert(a % 10 == ((n % 1000) / 10) % 10);
    assert(n % 10 == (n % 1000) % 10);
    assert(decimal(n) == decimal(a).push(digit_char((n % 10) as int)));
    assert(decimal(a) == decimal(b).push(digit_char((a % 10) as int)));
    assert(decimal(b) == decimal(b / 10).push(digit_char((b % 10) as int)));
    assert(decimal(n) =~= decimal(n / 1000) + three_digits(n % 1000));
}

/// Grouping changes nothing but the spaces: without them, the grouped text
/// of a number is its decimal text.
pub proof fn lemma_spaced_keeps_digits(n: nat)
    ensures
        without_spaces(spaced(n)) == decimal(n),
    decreases n,
{
    if n < 1000 {
        lemma_decimal_has_no_space(n);
    } else {
        let head = spaced(n / 1000);
        let tail = three_digits(n % 1000);
        lemma_spaced_keeps_digits(n / 1000);
        lemma_decimal_by_thousands(n);
        lemma_without_spaces_add(head + seq![' '], tail);
        lemma_without_spaces_add(head, seq![' ']);
        lemma_without_spaces_one(' ');
        assert(without_spaces(tail) =~= tail) by {
            let r = n % 1000;
            let d2 = seq![digit_char((r / 100) as int)];
            let d1 = seq![digit_char(((r / 10) % 10) as int)];
            let d0 = seq![digit_char((r % 10) as int)];
            assert(tail =~= d2 + d1 + d0);
            lemma_without_spaces_one(d2[0]);
            lemma_without_spaces_one(d1[0]);
            lemma_without_spaces_one(d0[0]);
            lemma_without_spaces_add(d2, d1);
            lemma_without_spaces_add(d2 + d1, d0);
        }
        assert(without_spaces(head) + Seq::<char>::empty() =~= without_spaces(head));
    }
}

/// The parts of a slug without `%` are without `%`.
pub proof fn lemma_parts_of_plain(slug: Seq<char>)
    requires
        is_plain(slug),
    ensures
        is_plain(slug_name_part(slug)),
        slug_tag_part(slug) matches Some(tag) ==> is_plain(tag),
{
    let dash = next_index(slug, '-', 0);
    lemma_next_index_bounds(slug, '-', 0);
    let name = slug.take(dash);
    if name.contains('%') {
        let i = choose|i: int| 0 <= i < name.len() && name[i] == '%';
        assert(slug[i] == '%');
    }
    if slug_tag_part(slug) is Some {
        let tag = slug.skip(dash + 1);
        if tag.contains('%') {
            let i = choose|i: int| 0 <= i < tag.len() && tag[i] == '%';
            assert(slug[dash + 1 + i] == '%');
        }
    }
}

/// `next_index` lies between `from` and the end.
pub proof fn lemma_next_index_bounds(s: Seq<char>, c: char, from: int)
    requires
        0 <= from <= s.len(),
    ensures
        from <= next_index(s, c, from) <= s.len(),
        next_index(s, c, from) < s.len() ==> s[next_index(s, c, from)] == c,
    decreases s.len() - from,
{
    if from < s.len() && s[from] != c {
        lemma_next_index_bounds(s, c, from + 1);
    }
}

/// A character that percent-encoding leaves as it is.
pub open spec fn is_unreserved_char(c: char) -> bool {
    (c as u32) < 128 && is_unreserved(c as u8)
}

/// Every character of a percent-encoded text is unreserved or `%`: the
/// text can stand in an address as it is.
pub proof fn lemma_percent_encoded_is_safe(bytes: Seq<u8>, i: int)
    requires
        0 <= i < percent_encoded(bytes).len(),
    ensures
        is_unreserved_char(percent_encoded(bytes)[i]) || percent_encoded(bytes)[i] == '%',
    decreases bytes.len(),
{
    let before = percent_encoded(bytes.drop_last());
    if i < before.len() {
        lemma_percent_encoded_is_safe(bytes.drop_last(), i);
    } else {
        let b = bytes.last();
        let k = i - before.len();
        if is_unreserved(b) {
            assert(encoded_byte(b)[k] == b as char);
            assert((b as char) as u8 == b);
        } else {
            assert(k == 0 || k == 1 || k == 2);
        }
    }
}

/// A text made of unreserved characters is its own percent-encoding.
pub proof fn lemma_unreserved_is_unchanged(text: Seq<char>)
    requires
        forall|i: int| 0 <= i < text.len() ==> is_unreserved_char(#[trigger] text[i]),
    ensures
        percent_encoded(vstd::utf8::encode_utf8(text)) == text,
{
    assert(vstd::utf8::is_ascii_chars(text)) by {
        assert forall|i: int| 0 <= i < text.len() implies '\0' <= #[trigger] text[i]
            <= '\u{7f}' by {
            assert(is_unreserved_char(text[i]));
            lemma_ascii_char(text[i]);
        }
    }
    vstd::utf8::is_ascii_chars_encode_utf8(text);
    lemma_unreserved_bytes(vstd::utf8::encode_utf8(text), text);
}

/// A character below 128 is the character of its byte.
proof fn lemma_ascii_char(c: char)
    requires
        (c as u32) < 128,
    ensures
        '\0' <= c <= '\u{7f}',
        (c as u8) as char == c,
{
}

/// Bytes that are all unreserved encode to the characters they stand for.
proof fn lemma_unreserved_bytes(bytes: Seq<u8>, text: Seq<char>)
    requires
        bytes.len() == text.len(),
        forall|i: int| 0 <= i < text.len() ==> is_unreserved_char(#[trigger] text[i]),
        forall|i: int| 0 <= i < text.len() ==> text[i] as u8 == #[trigger] bytes[i],
    ensures
        percent_encoded(bytes) == text,
    decreases bytes.len(),
{
    if bytes.len() > 0 {
        let b = bytes.last();
        let c = text.last();
        lemma_unreserved_bytes(bytes.drop_last(), text.drop_last());
        assert(is_unreserved_char(text[text.len() - 1]));
        assert(c as u8 == bytes[bytes.len() - 1]);
        lemma_ascii_char(c);
        assert(b as char == c);
        assert(percent_encoded(bytes) =~= text);
    } else {
        assert(percent_encoded(bytes) =~= text);
    }
}

} // verus!
