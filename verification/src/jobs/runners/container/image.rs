//! Images and names of containers.
use vstd::prelude::*;
use vstd::string::*;

use crate::text::{
    alphanumeric, first_chars, is_alphanumeric, lower_char, lowered, parted_at_the_first,
    parted_first, parted_reads_back, same, split_once, take_chars, to_chars, to_lower_char, trim,
    trim_both, trim_with, trimmed, trimming_is_stable,
};

verus! {

/// An image: a distribution in one of its releases.
#[derive(Debug)]
pub struct LxcImage {
    pub distribution: String,
    pub release: String,
}

/// Why a text names no image.
#[derive(Debug, Clone, Copy, PartialEq, Eq, Structural)]
pub enum ContainerImageError {
    Empty,
    Malformed,
}

impl ContainerImageError {
    pub open spec fn text(self) -> Seq<char> {
        match self {
            ContainerImageError::Empty => "container image must not be empty"@,
            ContainerImageError::Malformed =>
                "container image must use distribution:release format, for example ubuntu:24.04"@,
        }
    }

    /// What the error says to a reader.
    pub fn message(self) -> (r: String)
        ensures
            r@ == self.text(),
    {
        match self {
            ContainerImageError::Empty => "container image must not be empty".to_string(),
            ContainerImageError::Malformed =>
                "container image must use distribution:release format, for example ubuntu:24.04".to_string(),
        }
    }
}

/// The name of a release: Ubuntu's are also known by their numbers.
pub open spec fn release_name(distribution: Seq<char>, release: Seq<char>) -> Seq<char> {
    if distribution == "ubuntu"@ && release == "24.04"@ {
        "noble"@
    } else if distribution == "ubuntu"@ && release == "22.04"@ {
        "jammy"@
    } else if distribution == "ubuntu"@ && release == "20.04"@ {
        "focal"@
    } else {
        release
    }
}

/// The name of a release.
pub fn normalize_release(distribution: &str, release: &str) -> (r: String)
    ensures
        r@ == release_name(distribution@, release@),
{
    if same(distribution, "ubuntu") {
        if same(release, "24.04") {
            return "noble".to_string();
        }
        if same(release, "22.04") {
            return "jammy".to_string();
        }
        if same(release, "20.04") {
            return "focal".to_string();
        }
    }
    release.to_owned()
}

/// The image that a text names, as its distribution and its release: they stand
/// on the two sides of the first colon.
pub open spec fn image_of(value: Seq<char>) -> Result<
    (Seq<char>, Seq<char>),
    ContainerImageError,
> {
    if trimmed(value).len() == 0 {
        Err(ContainerImageError::Empty)
    } else {
        match parted_first(trimmed(value), ':') {
            Some((d, r)) => if trimmed(d).len() == 0 || trimmed(r).len() == 0 {
                Err(ContainerImageError::Malformed)
            } else {
                Ok((trimmed(d), release_name(trimmed(d), trimmed(r))))
            },
            None => Err(ContainerImageError::Malformed),
        }
    }
}

impl LxcImage {
    /// The image that a text names.
    pub fn parse(value: &str) -> (r: Result<LxcImage, ContainerImageError>)
        ensures
            match r {
                Ok(image) => image_of(value@) == Ok::<
                    (Seq<char>, Seq<char>),
                    ContainerImageError,
                >((image.distribution@, image.release@)),
                Err(e) => image_of(value@) == Err::<
                    (Seq<char>, Seq<char>),
                    ContainerImageError,
                >(e),
            },
    {
        let t = trim(value);
        if t.as_str().is_empty() {
            return Err(ContainerImageError::Empty);
        }
        match split_once(t.as_str(), ':') {
            Some((d, r)) => {
                let distribution = trim(d.as_str());
                let given = trim(r.as_str());
                if distribution.as_str().is_empty() || given.as_str().is_empty() {
                    return Err(ContainerImageError::Malformed);
                }
                let release = normalize_release(distribution.as_str(), given.as_str());
                Ok(LxcImage { distribution, release })
            },
            None => Err(ContainerImageError::Malformed),
        }
    }
}

// ---------------------------------------------------------------------------
// Names
// ---------------------------------------------------------------------------

/// The longest part of an attempt's name that stands in the name of its
/// container.
pub const MAX_NAME_CHARS: usize = 56;

/// A character as it stands in the name of a container.
pub open spec fn name_char(c: char) -> char {
    if is_alphanumeric(c) || c == '-' {
        lower_char(c)
    } else {
        '-'
    }
}

/// A text in the characters of names.
pub open spec fn in_name_chars(s: Seq<char>) -> Seq<char> {
    Seq::new(s.len(), |i: int| name_char(s[i]))
}

/// What of an attempt's name stands in the name of its container.
pub open spec fn name_suffix(attempt_id: Seq<char>) -> Seq<char> {
    let t = trim_both(in_name_chars(attempt_id), Some('-'));
    if t.len() == 0 {
        "job"@
    } else {
        t
    }
}

/// The name of the container of an attempt.
pub open spec fn container_name_of(attempt_id: Seq<char>) -> Seq<char> {
    "statix-"@ + first_chars(name_suffix(attempt_id), MAX_NAME_CHARS as nat)
}

/// The beginning of a name.
pub fn truncate_for_name(value: &str, max_chars: usize) -> (r: String)
    ensures
        r@ == first_chars(value@, max_chars as nat),
{
    take_chars(value, max_chars)
}

/// The name of the container of an attempt.
pub fn container_name(attempt_id: &str) -> (r: String)
    ensures
        r@ == container_name_of(attempt_id@),
{
    let cs = to_chars(attempt_id);
    let mut mapped = String::new();
    let mut i: usize = 0;
    while i < cs.len()
        invariant
            cs@ == attempt_id@,
            i <= cs@.len(),
            mapped@ == in_name_chars(attempt_id@).take(i as int),
        decreases cs@.len() - i,
    {
        let c = cs[i];
        let n = if alphanumeric(c) || c == '-' {
            to_lower_char(c)
        } else {
            '-'
        };
        mapped.push(n);
        proof {
            assert(in_name_chars(attempt_id@).take(i + 1) =~= in_name_chars(attempt_id@).take(
                i as int,
            ).push(n));
        }
        i += 1;
    }
    proof {
        assert(in_name_chars(attempt_id@).take(i as int) =~= in_name_chars(attempt_id@));
    }
    let t = trim_with(mapped.as_str(), Some('-'));
    let suffix = if t.as_str().is_empty() {
        "job".to_string()
    } else {
        t
    };
    let mut r = "statix-".to_string();
    r.append(truncate_for_name(suffix.as_str(), MAX_NAME_CHARS).as_str());
    r
}

/// Whether a character may stand in the name of a container: a lower-case letter,
/// a digit or a dash.
pub open spec fn is_name_char(c: char) -> bool {
    0x30 <= c as u32 <= 0x39 || 0x61 <= c as u32 <= 0x7a || c == '-'
}

/// The name of a container is that of a host: lower-case letters, digits and
/// dashes, from one letter on, and at most 63 characters.
pub proof fn container_name_is_a_host_name(attempt_id: Seq<char>)
    ensures
        7 < container_name_of(attempt_id).len() <= 63,
        container_name_of(attempt_id)[0] == 's',
        forall|i: int|
            0 <= i < container_name_of(attempt_id).len() ==> is_name_char(
                #[trigger] container_name_of(attempt_id)[i],
            ),
{
    reveal_strlit("statix-");
    reveal_strlit("job");
    let mapped = in_name_chars(attempt_id);
    let suffix = name_suffix(attempt_id);
    crate::segment::lemma_trim_both(mapped, Some('-'));
    let (a, b) = choose|a: int, b: int|
        0 <= a <= b <= mapped.len() && trim_both(mapped, Some('-')) == #[trigger] mapped.subrange(
            a,
            b,
        );
    assert forall|i: int| 0 <= i < suffix.len() implies is_name_char(#[trigger] suffix[i]) by {
        if trim_both(mapped, Some('-')).len() > 0 {
            assert(suffix[i] == mapped[a + i]);
        }
    }
    let cut = first_chars(suffix, MAX_NAME_CHARS as nat);
    assert forall|i: int| 0 <= i < container_name_of(attempt_id).len() implies is_name_char(
        #[trigger] container_name_of(attempt_id)[i],
    ) by {
        if i >= 7 {
            assert(container_name_of(attempt_id)[i] == cut[i - 7]);
            assert(cut[i - 7] == suffix[i - 7]);
        }
    }
}

// ---------------------------------------------------------------------------
// What is read and named
// ---------------------------------------------------------------------------

/// An image is a distribution and a release with a colon between: both are taken as they
/// are, but for three releases of Ubuntu that have a name.
pub proof fn image_is_distribution_and_release(distribution: Seq<char>, release: Seq<char>)
    requires
        distribution.len() > 0,
        release.len() > 0,
        trimmed(distribution) == distribution,
        trimmed(release) == release,
        !distribution.contains(':'),
    ensures
        ({
            let image = image_of(distribution + seq![':'] + release);
            let ubuntu = distribution == "ubuntu"@;
            &&& image is Ok
            &&& image->Ok_0.0 == distribution
            &&& ubuntu && release == "24.04"@ ==> image->Ok_0.1 == "noble"@
            &&& ubuntu && release == "22.04"@ ==> image->Ok_0.1 == "jammy"@
            &&& ubuntu && release == "20.04"@ ==> image->Ok_0.1 == "focal"@
            &&& !(ubuntu && (release == "24.04"@ || release == "22.04"@ || release == "20.04"@))
                ==> image->Ok_0.1 == release
        }),
{
    let value = distribution + seq![':'] + release;
    trimming_is_stable(distribution);
    trimming_is_stable(release);
    trimming_is_stable(value);
    assert(value[0] == distribution[0]);
    assert(value.last() == release.last());
    parted_reads_back(distribution, release, ':');
    reveal_strlit("24.04");
    reveal_strlit("22.04");
    reveal_strlit("20.04");
    assert("24.04"@[1] == '4' && "22.04"@[1] == '2' && "20.04"@[1] == '0');
}

/// White space around an image, and around its parts, changes nothing.
pub proof fn white_space_in_images_is_ignored(
    distribution: Seq<char>,
    release: Seq<char>,
    value: Seq<char>,
)
    requires
        !distribution.contains(':'),
        trimmed(value) == distribution + seq![':'] + release,
        trimmed(distribution).len() > 0,
        trimmed(release).len() > 0,
    ensures
        image_of(value) == image_of(trimmed(distribution) + seq![':'] + trimmed(release)),
{
    parted_reads_back(distribution, release, ':');
    trimming_is_stable(distribution);
    trimming_is_stable(release);
    let d = trimmed(distribution);
    let r = trimmed(release);
    let plain = d + seq![':'] + r;
    crate::segment::lemma_trim_both(distribution, None);
    assert(!d.contains(':')) by {
        if d.contains(':') {
            let k = choose|k: int| 0 <= k < d.len() && d[k] == ':';
            let (i, j) = choose|i: int, j: int|
                0 <= i <= j <= distribution.len() && trim_both(distribution, None)
                    == #[trigger] distribution.subrange(i, j);
            assert(distribution[i + k] == ':');
        }
    }
    parted_reads_back(d, r, ':');
    assert(plain[0] == d[0]);
    assert(plain.last() == r.last());
    trimming_is_stable(plain);
}

/// A text names no image where it is blank, or where a part of it is missing; and what
/// it names has both parts.
pub proof fn images_need_both_parts(value: Seq<char>)
    ensures
        trimmed(value).len() == 0 <==> image_of(value) == Err::<
            (Seq<char>, Seq<char>),
            ContainerImageError,
        >(ContainerImageError::Empty),
        trimmed(value).len() > 0 && !trimmed(value).contains(':') ==> image_of(value) == Err::<
            (Seq<char>, Seq<char>),
            ContainerImageError,
        >(ContainerImageError::Malformed),
        trimmed(value).len() > 0 && (trimmed(value)[0] == ':' || trimmed(value).last() == ':')
            && trimmed(value).len() == 1 ==> image_of(value) is Err,
        image_of(value) is Ok ==> image_of(value)->Ok_0.0.len() > 0 && image_of(value)->Ok_0.1.len()
            > 0,
{
    parted_at_the_first(trimmed(value), ':');
    reveal_strlit("noble");
    reveal_strlit("jammy");
    reveal_strlit("focal");
    if let Some((a, b)) = parted_first(trimmed(value), ':') {
        let t = trimmed(value);
        assert((a + seq![':'] + b).contains(':')) by {
            assert((a + seq![':'] + b)[a.len() as int] == ':');
        }
        if t.len() == 1 {
            assert(a.len() == 0);
            trimming_is_stable(a);
            assert(trimmed(a).len() == 0);
        }
    }
}

/// An attempt whose name is a name of a host already gives the container that name,
/// behind the name of the agent; whether its letters are small or capital makes no
/// difference.
pub proof fn container_is_named_after_its_attempt(attempt_id: Seq<char>)
    ensures
        0 < attempt_id.len() <= 56 && attempt_id[0] != '-' && attempt_id.last() != '-' && (forall|
            i: int,
        |
            0 <= i < attempt_id.len() ==> is_name_char(#[trigger] attempt_id[i]))
            ==> container_name_of(attempt_id) == "statix-"@ + attempt_id,
        container_name_of(attempt_id) == container_name_of(lowered(attempt_id)),
{
    if 0 < attempt_id.len() <= 56 && attempt_id[0] != '-' && attempt_id.last() != '-' && (forall|
        i: int,
    |
        0 <= i < attempt_id.len() ==> is_name_char(#[trigger] attempt_id[i])) {
        assert forall|i: int| 0 <= i < attempt_id.len() implies #[trigger] in_name_chars(
            attempt_id,
        )[i] == attempt_id[i] by {
            assert(is_name_char(attempt_id[i]));
        }
        assert(in_name_chars(attempt_id) =~= attempt_id);
        crate::segment::lemma_trim_nothing(attempt_id, Some('-'));
    }
    assert forall|i: int| 0 <= i < attempt_id.len() implies #[trigger] in_name_chars(
        lowered(attempt_id),
    )[i] == in_name_chars(attempt_id)[i] by {
        crate::text::characters_are_told_apart(attempt_id[i]);
        assert(lowered(attempt_id)[i] == lower_char(attempt_id[i]));
        crate::text::characters_are_told_apart(lower_char(attempt_id[i]));
    }
    assert(in_name_chars(lowered(attempt_id)) =~= in_name_chars(attempt_id));
}

} // verus!
