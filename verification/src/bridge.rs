//! The export bridge: gates the operation to mobile hosts, resolves the input
//! and output paths inside the application's private data directory, and
//! builds the request handed to the platform-native transcoder.

use crate::naming::{after_last, lemma_after_last_at, output_name_of, resolve_output_name};
use vstd::prelude::*;

verus! {

/// The host platform the bridge runs under.
#[derive(Clone, Copy, PartialEq, Eq, Structural, Debug)]
pub enum Platform {
    Android,
    Ios,
    Desktop,
}

impl Platform {
    /// The export command is available on the mobile platforms only.
    pub open spec fn spec_is_mobile(self) -> bool {
        self is Android || self is Ios
    }

    #[verifier::when_used_as_spec(spec_is_mobile)]
    pub fn is_mobile(self) -> (r: bool)
        ensures
            r == self.spec_is_mobile(),
    {
        match self {
            Platform::Android => true,
            Platform::Ios => true,
            Platform::Desktop => false,
        }
    }
}

/// What the bridge asks of the native transcoder: where to read the recording
/// and where to write the exported file.
pub struct ExportRequest {
    pub input_path: String,
    pub output_path: String,
}

/// The native transcoder's authoritative answer: where the exported file was
/// actually written. It is relayed to the caller unmodified.
pub struct ExportResponse {
    pub output_path: String,
}

/// Everything the host shell must do for one export: first make sure
/// `output_parent` exists, then hand `request` to the native transcoder.
pub struct ExportPlan {
    pub output_parent: String,
    pub request: ExportRequest,
}

/// `base` extended by the path `rel`, as paths join on Unix: an absolute
/// `rel` stands alone; otherwise a separator is inserted unless `base` is
/// empty or already ends in one.
pub open spec fn join_path(base: Seq<char>, rel: Seq<char>) -> Seq<char> {
    if rel.len() > 0 && rel[0] == '/' {
        rel
    } else if base.len() == 0 {
        rel
    } else if base.last() == '/' {
        base + rel
    } else {
        base + "/"@ + rel
    }
}

/// Joins `rel` onto `base`, per `join_path`.
pub fn join(base: &str, rel: &str) -> (r: String)
    ensures
        r@ == join_path(base@, rel@),
{
    let rel_len: usize = rel.unicode_len();
    if rel_len > 0 && rel.get_char(0) == '/' {
        rel.to_owned()
    } else {
        let base_len: usize = base.unicode_len();
        if base_len == 0 {
            rel.to_owned()
        } else if base.get_char(base_len - 1) == '/' {
            base.to_owned().concat(rel)
        } else {
            base.to_owned().concat("/").concat(rel)
        }
    }
}

/// The directory the output file lands in: `base` itself for a plain name,
/// the named subdirectory for a name with separators, and the root for an
/// absolute name sitting directly under it.
pub open spec fn output_parent_of(base: Seq<char>, name: Seq<char>) -> Seq<char> {
    let s = after_last(name, '/');
    if s == 0 {
        base
    } else if s == 1 {
        "/"@
    } else {
        join_path(base, name.take(s - 1))
    }
}

/// The directory to create before dispatch, per `output_parent_of`.
pub fn output_parent(base: &str, name: &str) -> (r: String)
    ensures
        r@ == output_parent_of(base@, name@),
{
    let len: usize = name.unicode_len();
    let mut s: usize = len;
    while s > 0 && name.get_char(s - 1) != '/'
        invariant
            s <= len == name@.len(),
            forall|i: int| s <= i < len ==> name@[i] != '/',
        decreases s,
    {
        s = s - 1;
    }
    proof {
        lemma_after_last_at(name@, '/', s as int);
    }
    if s == 0 {
        base.to_owned()
    } else if s == 1 {
        String::from_str("/")
    } else {
        let dir = name.substring_char(0, s - 1);
        join(base, dir)
    }
}

/// The fixed refusal reported on a non-mobile host.
pub open spec fn unsupported_msg() -> Seq<char> {
    "Mobile export is only available on iOS/Android."@
}

/// Plans one export call. On a mobile platform with the data directory in
/// hand, the plan resolves both paths under that directory, carries the
/// request for the native transcoder, and names the directory to create
/// first. On any other platform the call fails with the fixed message and no
/// request is built; a failed data-directory lookup is passed through as the
/// error.
pub fn plan_export(
    platform: Platform,
    app_data_dir: Result<String, String>,
    input_path: &str,
    output_file_name: Option<String>,
) -> (r: Result<ExportPlan, String>)
    ensures
        !platform.spec_is_mobile() ==> (r matches Err(m) && m@ == unsupported_msg()),
        platform.spec_is_mobile() ==> (match app_data_dir {
            Err(e) => r matches Err(m) && m@ == e@,
            Ok(base) => r matches Ok(plan) && ({
                let out_name = output_name_of(input_path@, output_file_name.deep_view());
                &&& plan.request.input_path@ == join_path(base@, input_path@)
                &&& plan.request.output_path@ == join_path(base@, out_name)
                &&& plan.output_parent@ == output_parent_of(base@, out_name)
            }),
        }),
{
    if !platform.is_mobile() {
        return Err(String::from_str("Mobile export is only available on iOS/Android."));
    }
    let base = match app_data_dir {
        Ok(b) => b,
        Err(e) => {
            return Err(e);
        },
    };
    let out_name = resolve_output_name(input_path, output_file_name);
    let input_full = join(base.as_str(), input_path);
    let output_full = join(base.as_str(), out_name.as_str());
    let parent = output_parent(base.as_str(), out_name.as_str());
    Ok(
        ExportPlan {
            output_parent: parent,
            request: ExportRequest { input_path: input_full, output_path: output_full },
        },
    )
}

} // verus!
