use vstd::prelude::*;
use crate::path::FsPath;

verus! {

/// An OpenAPI spec to write and to turn into a typed client before the build.
pub struct OpenApi {
    /// The serialized spec.
    spec: String,
    /// Where the spec is written, relative to the project root.
    json: FsPath,
    /// Where the generator writes the client; left out of the change hash,
    /// since it is derived from the spec.
    out_dir: FsPath,
}

pub struct OpenApiView {
    pub spec: Seq<char>,
    pub json: Seq<u8>,
    pub out_dir: Seq<u8>,
}

impl View for OpenApi {
    type V = OpenApiView;

    closed spec fn view(&self) -> OpenApiView {
        OpenApiView { spec: self.spec@, json: self.json@, out_dir: self.out_dir@ }
    }
}

/// A root-aware, content-gated build of a SvelteKit frontend: the npm steps
/// run behind a hash of the frontend inputs and are passed over when nothing
/// moved.
pub struct Frontend {
    root: FsPath,
    build_dir: String,
    openapi: Option<OpenApi>,
    skip_env: String,
}

pub struct FrontendView {
    /// The SvelteKit project root (where `package.json` lives).
    pub root: Seq<u8>,
    /// The static adapter's output directory, relative to the root.
    pub build_dir: Seq<char>,
    pub openapi: Option<OpenApiView>,
    /// The environment variable that skips the npm steps.
    pub skip_env: Seq<char>,
}

impl View for Frontend {
    type V = FrontendView;

    closed spec fn view(&self) -> FrontendView {
        FrontendView {
            root: self.root@,
            build_dir: self.build_dir@,
            openapi: match self.openapi {
                Some(a) => Some(a@),
                None => None,
            },
            skip_env: self.skip_env@,
        }
    }
}

/// The variable that skips the npm steps unless another is chosen.
pub open spec fn default_skip_env() -> Seq<char> {
    "SKIP_FRONTEND_BUILD"@
}

impl Frontend {
    /// A build of the project at `root` whose static output goes to
    /// `build_dir` (relative to `root`), with no OpenAPI step, skipped when
    /// `SKIP_FRONTEND_BUILD` is set.
    pub fn new(root: FsPath, build_dir: String) -> (r: Frontend)
        ensures
            r@ == (FrontendView {
                root: root@,
                build_dir: build_dir@,
                openapi: None,
                skip_env: default_skip_env(),
            }),
    {
        Frontend { root, build_dir, openapi: None, skip_env: "SKIP_FRONTEND_BUILD".to_owned() }
    }

    /// The same build, with the OpenAPI `spec` written to `json` and turned
    /// into a typed client in `out_dir` (both relative to the root); a spec
    /// set before is replaced.
    pub fn openapi(self, spec: String, json: FsPath, out_dir: FsPath) -> (r: Frontend)
        ensures
            r@ == (FrontendView {
                openapi: Some(OpenApiView { spec: spec@, json: json@, out_dir: out_dir@ }),
                ..self@
            }),
    {
        let mut f = self;
        f.openapi = Some(OpenApi { spec, json, out_dir });
        f
    }

    /// The same build, skipped when `var` is set in place of the variable
    /// chosen before.
    pub fn skip_env(self, var: String) -> (r: Frontend)
        ensures
            r@ == (FrontendView { skip_env: var@, ..self@ }),
    {
        let mut f = self;
        f.skip_env = var;
        f
    }

    pub(crate) fn root(&self) -> (r: &FsPath)
        ensures
            r@ == self@.root,
    {
        &self.root
    }

    pub(crate) fn build_dir(&self) -> (r: &String)
        ensures
            r@ == self@.build_dir,
    {
        &self.build_dir
    }

    pub(crate) fn skip_var(&self) -> (r: &String)
        ensures
            r@ == self@.skip_env,
    {
        &self.skip_env
    }

    pub(crate) fn has_openapi(&self) -> (r: bool)
        ensures
            r == self@.openapi is Some,
    {
        self.openapi.is_some()
    }

    /// The spec, its file and the generated directory, where there is a spec.
    pub(crate) fn openapi_parts(&self) -> (r: Option<(&String, &FsPath, &FsPath)>)
        ensures
            match r {
                Some(t) => self@.openapi == Some(
                    OpenApiView { spec: t.0@, json: t.1@, out_dir: t.2@ },
                ),
                None => self@.openapi is None,
            },
    {
        match &self.openapi {
            Some(a) => Some((&a.spec, &a.json, &a.out_dir)),
            None => None,
        }
    }
}

} // verus!
