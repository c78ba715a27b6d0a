//! Container-runtime inventory logic: display names, port-binding
//! summaries, repository/tag splitting, short image identifiers, and the
//! in-use tracking that ties images to the containers referencing them.
use crate::text::{
    concat_strings, concat_views, contains_string, dec_str, find_char, find_char_exec,
    join_strings, join_with, lemma_find_char, seq_contains_str, strip_leading, strip_leading_exec,
    u64_to_string,
};
use vstd::utf8::is_ascii_chars;
use vstd::prelude::*;
use vstd::string::{StrSliceExecFns, StringExecFns};

verus! {

/// One port binding as the runtime reports it.
pub struct PortRaw {
    pub public_port: Option<u16>,
    pub private_port: u16,
    pub protocol: String,
}

/// One container as the runtime reports it.
pub struct ContainerRaw {
    pub names: Vec<String>,
    pub status: Option<String>,
    pub state: Option<String>,
    pub image_id: Option<String>,
    pub ports: Vec<PortRaw>,
}

/// One image as the runtime reports it.
pub struct ImageRaw {
    pub repo_tags: Vec<String>,
    pub id: String,
    pub size_bytes: i64,
}

/// One container row of the snapshot.
pub struct ContainerInfo {
    pub name: String,
    pub status: String,
    pub state: String,
    pub ports: String,
}

/// One image row of the snapshot. The size stays in raw bytes here; a
/// presentation layer may scale it.
pub struct ImageInfo {
    pub repo: String,
    pub tag: String,
    pub id: String,
    pub size_bytes: i64,
    pub in_use: bool,
}

/// The rendering of one published binding: `public:private/protocol`.
pub open spec fn port_entry(public_port: u16, private_port: u16, protocol: Seq<char>) -> Seq<
    char,
> {
    dec_str(public_port as nat) + seq![':'] + dec_str(private_port as nat) + seq!['/'] + protocol
}

/// The renderings of the bindings with a public port, in order.
pub open spec fn port_entries(ps: Seq<PortRaw>) -> Seq<Seq<char>>
    decreases ps.len(),
{
    if ps.len() == 0 {
        Seq::empty()
    } else {
        port_entries(ps.drop_last()) + (match ps.last().public_port {
            Some(pp) => seq![port_entry(pp, ps.last().private_port, ps.last().protocol@)],
            None => Seq::empty(),
        })
    }
}

/// The port-binding summary: the published bindings joined with `", "`, or
/// `"-"` when none is published.
pub open spec fn ports_summary(ps: Seq<PortRaw>) -> Seq<char> {
    if port_entries(ps).len() == 0 {
        seq!['-']
    } else {
        join_with(port_entries(ps), seq![',', ' '])
    }
}

fn port_entry_exec(public_port: u16, private_port: u16, protocol: &String) -> (r: String)
    ensures
        r@ == port_entry(public_port, private_port, protocol@),
{
    proof {
        reveal_strlit(":");
        reveal_strlit("/");
    }
    let mut e = u64_to_string(public_port as u64);
    e.append(":");
    let p = u64_to_string(private_port as u64);
    e.append(p.as_str());
    e.append("/");
    e.append(protocol.as_str());
    proof {
        assert(":"@ =~= seq![':']);
        assert("/"@ =~= seq!['/']);
    }
    e
}

/// Renders the port-binding summary for one container.
pub fn ports_summary_exec(ports: &Vec<PortRaw>) -> (r: String)
    ensures
        r@ == ports_summary(ports@),
{
    let mut entries: Vec<String> = Vec::new();
    let mut i: usize = 0;
    while i < ports.len()
        invariant
            0 <= i <= ports@.len(),
            entries@.map_values(|s: String| s@) == port_entries(ports@.take(i as int)),
        decreases ports@.len() - i,
    {
        let ghost old_entries = entries@;
        match ports[i].public_port {
            Some(pp) => {
                let e = port_entry_exec(pp, ports[i].private_port, &ports[i].protocol);
                entries.push(e);
            },
            None => {},
        }
        proof {
            assert(ports@.take(i + 1).drop_last() =~= ports@.take(i as int));
            assert(ports@.take(i + 1).last() == ports@[i as int]);
            if ports@[i as int].public_port is Some {
                assert(entries@.map_values(|s: String| s@) =~= old_entries.map_values(
                    |s: String| s@,
                ).push(entries@.last()@));
                assert(entries@.map_values(|s: String| s@) =~= port_entries(ports@.take(i + 1)));
            } else {
                assert(port_entries(ports@.take(i + 1)) =~= port_entries(ports@.take(i as int))
                    + Seq::<Seq<char>>::empty());
                assert(port_entries(ports@.take(i + 1)) =~= port_entries(ports@.take(i as int)));
            }
        }
        i = i + 1;
    }
    proof {
        assert(ports@.take(ports@.len() as int) =~= ports@);
    }
    if entries.len() == 0 {
        proof {
            reveal_strlit("-");
            assert("-"@ =~= seq!['-']);
        }
        "-".to_owned()
    } else {
        proof {
            reveal_strlit(", ");
            assert(", "@ =~= seq![',', ' ']);
        }
        join_strings(&entries, ", ")
    }
}

/// The display name: every alias joined, then each leading path separator
/// removed.
pub open spec fn display_name(names: Seq<Seq<char>>) -> Seq<char> {
    strip_leading(concat_views(names), '/')
}

/// A string field the runtime may omit, defaulted to empty.
pub open spec fn opt_str_view(o: Option<String>) -> Seq<char> {
    match o {
        Some(s) => s@,
        None => Seq::empty(),
    }
}

fn opt_str_or_empty(o: Option<String>) -> (r: String)
    ensures
        r@ == opt_str_view(o),
{
    match o {
        Some(s) => s,
        None => String::new(),
    }
}

/// Builds one container row: the display name from the aliases, the status
/// and state defaulted to empty when absent, and the port summary.
pub fn container_info(c: ContainerRaw) -> (r: ContainerInfo)
    ensures
        r.name@ == display_name(c.names@.map_values(|s: String| s@)),
        r.status@ == opt_str_view(c.status),
        r.state@ == opt_str_view(c.state),
        r.ports@ == ports_summary(c.ports@),
{
    let ContainerRaw { names, status, state, image_id: _, ports } = c;
    let joined = concat_strings(&names);
    let name = strip_leading_exec(joined.as_str(), '/');
    let ports_text = ports_summary_exec(&ports);
    ContainerInfo {
        name,
        status: opt_str_or_empty(status),
        state: opt_str_or_empty(state),
        ports: ports_text,
    }
}

/// The first `repo:tag` reference of an image, or `"none:none"` when the
/// runtime lists none.
pub open spec fn first_repo_tag(tags: Seq<Seq<char>>) -> Seq<char> {
    if tags.len() > 0 {
        tags[0]
    } else {
        "none:none"@
    }
}

/// The repository part: everything before the first `':'`.
pub open spec fn repo_of(rt: Seq<char>) -> Seq<char> {
    rt.subrange(0, find_char(rt, ':', 0))
}

/// The tag part: what stands between the first `':'` and the next one, or
/// `"latest"` when the reference has no `':'` at all.
pub open spec fn tag_of(rt: Seq<char>) -> Seq<char> {
    let f = find_char(rt, ':', 0);
    if f == rt.len() {
        "latest"@
    } else {
        rt.subrange(f + 1, find_char(rt, ':', f + 1))
    }
}

/// Splits a `repo:tag` reference into repository and tag.
pub fn split_repo_tag(rt: &str) -> (r: (String, String))
    ensures
        r.0@ == repo_of(rt@),
        r.1@ == tag_of(rt@),
{
    proof {
        lemma_find_char(rt@, ':', 0);
    }
    let n = rt.unicode_len();
    let f = find_char_exec(rt, ':', 0);
    if f == n {
        proof {
            assert(rt@.subrange(0, n as int) =~= rt@);
        }
        (rt.to_owned(), "latest".to_owned())
    } else {
        let g = find_char_exec(rt, ':', f + 1);
        (rt.substring_char(0, f).to_owned(), rt.substring_char(f + 1, g).to_owned())
    }
}

/// The short display identifier: the twelve characters after the algorithm
/// prefix of an ASCII content identifier, or a placeholder when the
/// identifier is not of that shape.
pub open spec fn short_id_of(id: Seq<char>) -> Seq<char> {
    if is_ascii_chars(id) && id.len() >= 19 {
        id.subrange(7, 19)
    } else {
        "unknown"@
    }
}

/// Truncates a content identifier for display.
pub fn short_id(id: &str) -> (r: String)
    ensures
        r@ == short_id_of(id@),
{
    if id.is_ascii() && id.unicode_len() >= 19 {
        id.substring_ascii(7, 19).to_owned()
    } else {
        "unknown".to_owned()
    }
}

/// Whether some listed container references the image identifier `id`.
pub open spec fn container_references(cs: Seq<ContainerRaw>, id: Seq<char>) -> bool {
    exists|j: int|
        0 <= j < cs.len() && ((#[trigger] cs[j].image_id) matches Some(s) && s@ == id)
}

/// Collects the image identifiers that the listed containers reference:
/// every collected identifier is referenced by some container, and every
/// referenced identifier is collected.
pub fn collect_image_ids(containers: &Vec<ContainerRaw>) -> (r: Vec<String>)
    ensures
        forall|i: int|
            0 <= i < r@.len() ==> container_references(containers@, #[trigger] r@[i]@),
        forall|j: int|
            0 <= j < containers@.len() ==> ((#[trigger] containers@[j].image_id) matches Some(s)
                ==> seq_contains_str(r@.map_values(|t: String| t@), s@)),
{
    let mut out: Vec<String> = Vec::new();
    let mut j: usize = 0;
    while j < containers.len()
        invariant
            0 <= j <= containers@.len(),
            forall|i: int|
                0 <= i < out@.len() ==> container_references(containers@, #[trigger] out@[i]@),
            forall|k: int|
                0 <= k < j ==> ((#[trigger] containers@[k].image_id) matches Some(s)
                    ==> seq_contains_str(out@.map_values(|t: String| t@), s@)),
        decreases containers@.len() - j,
    {
        let ghost old_out = out@;
        match &containers[j].image_id {
            Some(s) => {
                let copy = s.clone();
                out.push(copy);
                proof {
                    let oldviews = old_out.map_values(|t: String| t@);
                    let views = out@.map_values(|t: String| t@);
                    assert(containers@[j as int].image_id == Some(*s));
                    assert(forall|i: int| 0 <= i < old_out.len() ==> out@[i] == old_out[i]);
                    assert(forall|i: int| 0 <= i < old_out.len() ==> views[i] == oldviews[i]);
                    assert(views[old_out.len() as int] == s@);
                    assert(container_references(containers@, s@));
                    assert forall|x: Seq<char>|
                        seq_contains_str(oldviews, x) implies seq_contains_str(views, x) by {
                        let i = choose|i: int| 0 <= i < oldviews.len() && oldviews[i] == x;
                        assert(views[i] == x);
                    };
                    assert(seq_contains_str(views, s@));
                }
            },
            None => {},
        }
        j = j + 1;
    }
    out
}

/// Builds one image row: repository and tag split out of the first
/// reference, the identifier truncated for display, the raw size kept, and
/// `in_use` exactly when `used_ids` holds the full identifier.
pub fn image_info(img: ImageRaw, used_ids: &Vec<String>) -> (r: ImageInfo)
    ensures
        r.repo@ == repo_of(first_repo_tag(img.repo_tags@.map_values(|s: String| s@))),
        r.tag@ == tag_of(first_repo_tag(img.repo_tags@.map_values(|s: String| s@))),
        r.id@ == short_id_of(img.id@),
        r.size_bytes == img.size_bytes,
        r.in_use == seq_contains_str(used_ids@.map_values(|t: String| t@), img.id@),
{
    let rt: String = if img.repo_tags.len() > 0 {
        img.repo_tags[0].clone()
    } else {
        "none:none".to_owned()
    };
    proof {
        if img.repo_tags@.len() > 0 {
            assert(img.repo_tags@.map_values(|s: String| s@)[0] == img.repo_tags@[0]@);
        }
    }
    let (repo, tag) = split_repo_tag(rt.as_str());
    let id_short = short_id(img.id.as_str());
    let in_use = contains_string(used_ids, &img.id);
    ImageInfo { repo, tag, id: id_short, size_bytes: img.size_bytes, in_use }
}

/// How one container row relates to the raw listing it was built from.
pub open spec fn container_row(c: ContainerRaw, r: ContainerInfo) -> bool {
    &&& r.name@ == display_name(c.names@.map_values(|s: String| s@))
    &&& r.status@ == opt_str_view(c.status)
    &&& r.state@ == opt_str_view(c.state)
    &&& r.ports@ == ports_summary(c.ports@)
}

/// How one image row relates to the raw listing it was built from, with
/// `in_use` holding exactly when some container of `cs` references it.
pub open spec fn image_row(cs: Seq<ContainerRaw>, img: ImageRaw, r: ImageInfo) -> bool {
    &&& r.repo@ == repo_of(first_repo_tag(img.repo_tags@.map_values(|s: String| s@)))
    &&& r.tag@ == tag_of(first_repo_tag(img.repo_tags@.map_values(|s: String| s@)))
    &&& r.id@ == short_id_of(img.id@)
    &&& r.size_bytes == img.size_bytes
    &&& (r.in_use <==> container_references(cs, img.id@))
}

/// Builds the container and image rows of one snapshot. Every image row's
/// `in_use` flag holds exactly when some currently-listed container's image
/// identifier equals that image's identifier.
pub fn build_inventory(containers_raw: Vec<ContainerRaw>, images_raw: Vec<ImageRaw>) -> (r: (
    Vec<ContainerInfo>,
    Vec<ImageInfo>,
))
    ensures
        r.0@.len() == containers_raw@.len(),
        forall|i: int|
            0 <= i < containers_raw@.len() ==> container_row(
                containers_raw@[i],
                #[trigger] r.0@[i],
            ),
        r.1@.len() == images_raw@.len(),
        forall|k: int|
            0 <= k < images_raw@.len() ==> image_row(
                containers_raw@,
                images_raw@[k],
                #[trigger] r.1@[k],
            ),
{
    let ghost cs = containers_raw@;
    let used = collect_image_ids(&containers_raw);
    let ghost used_views = used@.map_values(|t: String| t@);
    proof {
        assert forall|id: Seq<char>|
            seq_contains_str(used_views, id) <==> container_references(cs, id) by {
            if seq_contains_str(used_views, id) {
                let i = choose|i: int| 0 <= i < used_views.len() && used_views[i] == id;
                assert(used_views[i] == used@[i]@);
                assert(container_references(cs, used@[i]@));
            }
            if container_references(cs, id) {
                let j = choose|j: int|
                    0 <= j < cs.len() && ((#[trigger] cs[j].image_id) matches Some(s) && s@
                        == id);
                assert(cs[j].image_id matches Some(s) ==> seq_contains_str(used_views, s@));
            }
        };
    }
    let mut remaining = containers_raw;
    let mut rows: Vec<ContainerInfo> = Vec::new();
    while remaining.len() > 0
        invariant
            rows@.len() + remaining@.len() == cs.len(),
            remaining@ == cs.skip(rows@.len() as int),
            forall|i: int| 0 <= i < rows@.len() ==> container_row(cs[i], #[trigger] rows@[i]),
        decreases remaining@.len(),
    {
        let ghost k = rows@.len() as int;
        let c = remaining.remove(0);
        proof {
            assert(c == cs.skip(k)[0]);
            assert(c == cs[k]);
            assert(remaining@ =~= cs.skip(k + 1));
        }
        let row = container_info(c);
        rows.push(row);
    }
    let mut img_remaining = images_raw;
    let ghost imgs = images_raw@;
    let mut img_rows: Vec<ImageInfo> = Vec::new();
    while img_remaining.len() > 0
        invariant
            img_rows@.len() + img_remaining@.len() == imgs.len(),
            img_remaining@ == imgs.skip(img_rows@.len() as int),
            used_views == used@.map_values(|t: String| t@),
            forall|id: Seq<char>|
                seq_contains_str(used_views, id) <==> container_references(cs, id),
            forall|k: int| 0 <= k < img_rows@.len() ==> image_row(cs, imgs[k], #[trigger] img_rows@[k]),
        decreases img_remaining@.len(),
    {
        let ghost k = img_rows@.len() as int;
        let img = img_remaining.remove(0);
        proof {
            assert(img == imgs.skip(k)[0]);
            assert(img == imgs[k]);
            assert(img_remaining@ =~= imgs.skip(k + 1));
        }
        let row = image_info(img, &used);
        img_rows.push(row);
    }
    (rows, img_rows)
}

} // verus!
