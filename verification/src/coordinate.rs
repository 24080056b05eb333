//! The text form of a coordinate: a longitude and a latitude separated by a comma, each
//! surrounded by any amount of white space.

use vstd::prelude::*;

verus! {

broadcast use vstd::string::group_string_axioms;

/// Whether `c` has the Unicode property White_Space, as `char::is_whitespace` decides.
pub open spec fn is_white_space(c: char) -> bool {
    let n = c as u32;
    ||| 0x09 <= n <= 0x0d
    ||| n == 0x20
    ||| n == 0x85
    ||| n == 0xa0
    ||| n == 0x1680
    ||| 0x2000 <= n <= 0x200a
    ||| n == 0x2028
    ||| n == 0x2029
    ||| n == 0x202f
    ||| n == 0x205f
    ||| n == 0x3000
}

/// `s` without its leading white space.
pub open spec fn trim_start(s: Seq<char>) -> Seq<char>
    decreases s.len(),
{
    if s.len() > 0 && is_white_space(s[0]) {
        trim_start(s.drop_first())
    } else {
        s
    }
}

/// `s` without its trailing white space.
pub open spec fn trim_end(s: Seq<char>) -> Seq<char>
    decreases s.len(),
{
    if s.len() > 0 && is_white_space(s.last()) {
        trim_end(s.drop_last())
    } else {
        s
    }
}

/// `s` without its leading and trailing white space.
pub open spec fn trim(s: Seq<char>) -> Seq<char> {
    trim_end(trim_start(s))
}

/// The index of the first comma in `s` at or after `from`, or the length of `s` where there
/// is none.
pub open spec fn find_comma(s: Seq<char>, from: int) -> int
    decreases s.len() - from,
{
    if from >= s.len() {
        s.len() as int
    } else if s[from] == ',' {
        from
    } else {
        find_comma(s, from + 1)
    }
}

/// Why the text of a coordinate does not hold its two fields.
#[derive(Debug, Clone, Copy, PartialEq, Eq)]
pub enum CoordinateError {
    /// There is no longitude field.
    MissingLongitude,
    /// There is no latitude field: the text holds no comma.
    MissingLatitude,
}

/// The longitude and latitude fields of the text of a coordinate: the text before the first
/// comma, and the text between the first comma and the next comma (or the end), each
/// trimmed of white space.
pub open spec fn coordinate_fields(s: Seq<char>) -> Result<(Seq<char>, Seq<char>), CoordinateError> {
    let first = find_comma(s, 0);
    if first >= s.len() {
        Err(CoordinateError::MissingLatitude)
    } else {
        let second = find_comma(s, first + 1);
        Ok((trim(s.subrange(0, first)), trim(s.subrange(first + 1, second))))
    }
}

/// The characters of `s`.
pub(crate) fn chars_of(s: &str) -> (v: Vec<char>)
    ensures
        v@ == s@,
{
    let mut v: Vec<char> = Vec::new();
    for c in iter: s.chars()
        invariant
            v@ == iter.seq().take(iter.index() as int),
    {
        v.push(c);
    }
    v
}

fn white_space(c: char) -> (r: bool)
    ensures
        r == is_white_space(c),
{
    let n = c as u32;
    (0x09 <= n && n <= 0x0d) || n == 0x20 || n == 0x85 || n == 0xa0 || n == 0x1680 || (0x2000
        <= n && n <= 0x200a) || n == 0x2028 || n == 0x2029 || n == 0x202f || n == 0x205f || n
        == 0x3000
}

proof fn lemma_find_comma_bounds(s: Seq<char>, from: int)
    requires
        0 <= from <= s.len(),
    ensures
        from <= find_comma(s, from) <= s.len(),
        find_comma(s, from) < s.len() ==> s[find_comma(s, from)] == ',',
        forall|i: int| from <= i < find_comma(s, from) ==> s[i] != ',',
    decreases s.len() - from,
{
    if from < s.len() && s[from] != ',' {
        lemma_find_comma_bounds(s, from + 1);
    }
}

/// The index of the first comma in `v` at or after `from`, or the length of `v`.
fn next_comma(v: &Vec<char>, from: usize) -> (r: usize)
    requires
        from <= v@.len(),
    ensures
        r == find_comma(v@, from as int),
{
    let mut i = from;
    while i < v.len() && v[i] != ','
        invariant
            from <= i <= v@.len(),
            find_comma(v@, i as int) == find_comma(v@, from as int),
        decreases v@.len() - i,
    {
        i = i + 1;
    }
    i
}

/// The bounds, within `v[from..to]`, of that slice trimmed of white space.
fn trim_bounds(v: &Vec<char>, from: usize, to: usize) -> (r: (usize, usize))
    requires
        from <= to <= v@.len(),
    ensures
        from <= r.0 <= r.1 <= to,
        v@.subrange(r.0 as int, r.1 as int) == trim(v@.subrange(from as int, to as int)),
{
    let mut start = from;
    while start < to && white_space(v[start])
        invariant
            from <= start <= to <= v@.len(),
            trim_start(v@.subrange(start as int, to as int)) == trim_start(
                v@.subrange(from as int, to as int),
            ),
        decreases to - start,
    {
        assert(v@.subrange(start as int, to as int).drop_first() =~= v@.subrange(
            start + 1,
            to as int,
        ));
        start = start + 1;
    }
    assert(trim_start(v@.subrange(start as int, to as int)) == v@.subrange(start as int, to as int));
    let mut end = to;
    while end > start && white_space(v[end - 1])
        invariant
            from <= start <= end <= to <= v@.len(),
            trim_end(v@.subrange(start as int, end as int)) == trim_end(
                v@.subrange(start as int, to as int),
            ),
        decreases end - start,
    {
        assert(v@.subrange(start as int, end as int).drop_last() =~= v@.subrange(
            start as int,
            end - 1,
        ));
        end = end - 1;
    }
    (start, end)
}

/// Split the text of a coordinate into its trimmed longitude and latitude fields.
pub fn parse_coordinate_fields(coordinates: &str) -> (r: Result<(String, String), CoordinateError>)
    ensures
        match coordinate_fields(coordinates@) {
            Ok((lon, lat)) => r matches Ok((a, b)) && a@ == lon && b@ == lat,
            Err(e) => r == Err::<(String, String), CoordinateError>(e),
        },
{
    let v = chars_of(coordinates);
    let first = next_comma(&v, 0);
    if first >= v.len() {
        return Err(CoordinateError::MissingLatitude);
    }
    proof {
        lemma_find_comma_bounds(v@, 0);
        lemma_find_comma_bounds(v@, first + 1);
    }
    let second = next_comma(&v, first + 1);
    let (lon_start, lon_end) = trim_bounds(&v, 0, first);
    let (lat_start, lat_end) = trim_bounds(&v, first + 1, second);
    let lon = coordinates.substring_char(lon_start, lon_end).to_owned();
    let lat = coordinates.substring_char(lat_start, lat_end).to_owned();
    Ok((lon, lat))
}


/// The text of a coordinate from the texts of its longitude and latitude, as
/// `format!("{lon},{lat}")` writes it.
pub fn coordinate_text(lon: &str, lat: &str) -> (r: String)
    ensures
        r@ == lon@ + seq![','] + lat@,
{
    let r = lon.to_owned().concat(",").concat(lat);
    proof {
        reveal_strlit(",");
    }
    r
}

/// `s` has no leading or trailing white space.
pub open spec fn is_trimmed(s: Seq<char>) -> bool {
    s.len() > 0 ==> !is_white_space(s[0]) && !is_white_space(s.last())
}

/// `s` holds no comma.
pub open spec fn has_no_comma(s: Seq<char>) -> bool {
    forall|i: int| 0 <= i < s.len() ==> s[i] != ','
}

proof fn lemma_trim_start_shape(s: Seq<char>)
    ensures
        trim_start(s).len() > 0 ==> !is_white_space(trim_start(s)[0]),
        trim_start(s).len() <= s.len(),
        trim_start(s) == s.subrange(s.len() - trim_start(s).len(), s.len() as int),
    decreases s.len(),
{
    if s.len() > 0 && is_white_space(s[0]) {
        lemma_trim_start_shape(s.drop_first());
        assert(s.drop_first().subrange(
            s.drop_first().len() - trim_start(s).len(),
            s.drop_first().len() as int,
        ) =~= s.subrange(s.len() - trim_start(s).len(), s.len() as int));
    } else {
        assert(s.subrange(0, s.len() as int) =~= s);
    }
}

proof fn lemma_trim_end_shape(s: Seq<char>)
    ensures
        trim_end(s).len() > 0 ==> !is_white_space(trim_end(s).last()),
        trim_end(s).len() <= s.len(),
        trim_end(s) == s.subrange(0, trim_end(s).len() as int),
    decreases s.len(),
{
    if s.len() > 0 && is_white_space(s.last()) {
        lemma_trim_end_shape(s.drop_last());
        assert(s.drop_last().subrange(0, trim_end(s).len() as int) =~= s.subrange(
            0,
            trim_end(s).len() as int,
        ));
    } else {
        assert(s.subrange(0, s.len() as int) =~= s);
    }
}

/// Trimming leaves no leading or trailing white space.
pub proof fn lemma_trim_is_trimmed(s: Seq<char>)
    ensures
        is_trimmed(trim(s)),
{
    let t = trim_start(s);
    lemma_trim_start_shape(s);
    lemma_trim_end_shape(t);
    let u = trim_end(t);
    if u.len() > 0 {
        assert(u[0] == t[0]);
    }
}

/// Text without leading or trailing white space is its own trim.
pub proof fn lemma_trimmed_is_fixed(s: Seq<char>)
    requires
        is_trimmed(s),
    ensures
        trim(s) == s,
{
}

/// Trimming twice is trimming once.
pub proof fn lemma_trim_idempotent(s: Seq<char>)
    ensures
        trim(trim(s)) == trim(s),
{
    lemma_trim_is_trimmed(s);
    lemma_trimmed_is_fixed(trim(s));
}

proof fn lemma_find_comma_skips(s: Seq<char>, from: int, to: int)
    requires
        0 <= from <= to <= s.len(),
        forall|i: int| from <= i < to ==> s[i] != ',',
    ensures
        find_comma(s, from) == find_comma(s, to),
    decreases to - from,
{
    if from < to {
        lemma_find_comma_skips(s, from + 1, to);
    }
}

/// The longitude field of the text of a coordinate is never missing: only a missing
/// latitude is an error.
pub proof fn lemma_longitude_never_missing(s: Seq<char>)
    ensures
        coordinate_fields(s) != Err::<(Seq<char>, Seq<char>), CoordinateError>(
            CoordinateError::MissingLongitude,
        ),
{
}

/// The fields of the text of a coordinate hold no comma and no leading or trailing white
/// space.
pub proof fn lemma_fields_are_clean(s: Seq<char>)
    ensures
        coordinate_fields(s) matches Ok((lon, lat)) ==> is_trimmed(lon) && is_trimmed(lat)
            && has_no_comma(lon) && has_no_comma(lat),
{
    let first = find_comma(s, 0);
    lemma_find_comma_bounds(s, 0);
    if first < s.len() {
        lemma_find_comma_bounds(s, first + 1);
        let second = find_comma(s, first + 1);
        let a = s.subrange(0, first);
        let b = s.subrange(first + 1, second);
        lemma_trim_is_trimmed(a);
        lemma_trim_is_trimmed(b);
        lemma_trim_start_shape(a);
        lemma_trim_end_shape(trim_start(a));
        lemma_trim_start_shape(b);
        lemma_trim_end_shape(trim_start(b));
        assert(has_no_comma(a));
        assert(has_no_comma(b));
    }
}

/// Reading back the text of a coordinate gives back its longitude and latitude, where these
/// hold no comma and no leading or trailing white space.
pub proof fn lemma_coordinate_text_roundtrip(lon: Seq<char>, lat: Seq<char>)
    requires
        has_no_comma(lon),
        has_no_comma(lat),
        is_trimmed(lon),
        is_trimmed(lat),
    ensures
        coordinate_fields(lon + seq![','] + lat) == Ok::<(Seq<char>, Seq<char>), CoordinateError>(
            (lon, lat),
        ),
{
    let s = lon + seq![','] + lat;
    lemma_find_comma_skips(s, 0, lon.len() as int);
    assert(find_comma(s, 0) == lon.len());
    lemma_find_comma_skips(s, lon.len() + 1int, s.len() as int);
    assert(find_comma(s, lon.len() + 1int) == s.len());
    assert(s.subrange(0, lon.len() as int) =~= lon);
    assert(s.subrange(lon.len() + 1int, s.len() as int) =~= lat);
}

/// The text of a coordinate lacks its latitude exactly when it holds no comma; otherwise the
/// longitude is the trimmed text before the first comma and the latitude the trimmed text
/// from there up to the next comma or the end.
pub proof fn lemma_fields_split_at_first_comma(s: Seq<char>)
    ensures
        coordinate_fields(s) == Err::<(Seq<char>, Seq<char>), CoordinateError>(
            CoordinateError::MissingLatitude,
        ) <==> has_no_comma(s),
        coordinate_fields(s) matches Ok((lon, lat)) ==> exists|k: int, j: int|
            0 <= k < j <= s.len() && s[k] == ',' && has_no_comma(#[trigger] s.subrange(0, k))
                && has_no_comma(#[trigger] s.subrange(k + 1, j)) && (j == s.len() || s[j] == ',')
                && lon == trim(s.subrange(0, k)) && lat == trim(s.subrange(k + 1, j)),
{
    lemma_find_comma_bounds(s, 0);
    let k = find_comma(s, 0);
    if k < s.len() {
        lemma_find_comma_bounds(s, k + 1);
        let j = find_comma(s, k + 1);
        assert(has_no_comma(s.subrange(0, k)));
        assert(has_no_comma(s.subrange(k + 1, j)));
        assert(!has_no_comma(s));
    } else {
        assert(has_no_comma(s));
    }
}

} // verus!
