use vstd::prelude::*;

verus! {

/// Diagnostic logs handed back by the driver are kept to at most this many bytes.
pub const LOG_LIMIT: usize = 512;

/// Which shader stage a compile step or a diagnostic belongs to.
#[derive(Clone, Copy, PartialEq, Eq, Structural, Debug)]
pub enum Stage {
    Vertex,
    Fragment,
}

impl Stage {
    /// The label that names this stage in diagnostics.
    pub fn label(self) -> (r: &'static str)
        ensures
            self is Vertex ==> r@ == "vertex"@,
            self is Fragment ==> r@ == "fragment"@,
    {
        match self {
            Stage::Vertex => "vertex",
            Stage::Fragment => "fragment",
        }
    }
}

/// Why building a program failed: one stage failed to compile, or the link
/// step failed. Each failure carries the driver's diagnostic log, truncated
/// to `LOG_LIMIT` bytes.
#[derive(PartialEq, Eq, Debug)]
pub enum ShaderError {
    CompileFailure { stage: Stage, log: Vec<u8> },
    LinkFailure { log: Vec<u8> },
}

/// A linked program: an opaque driver-side handle, valid (non-zero) for the
/// object's whole lifetime.
#[derive(Clone, Copy, PartialEq, Eq, Structural, Debug)]
pub struct ShaderProgram {
    pub id: u32,
}

impl ShaderProgram {
    pub open spec fn wf(self) -> bool {
        self.id != 0
    }
}

/// A driver log cut down to the first `LOG_LIMIT` bytes.
pub open spec fn spec_truncated(log: Seq<u8>) -> Seq<u8> {
    if log.len() <= LOG_LIMIT { log } else { log.subrange(0, LOG_LIMIT as int) }
}

/// Keep at most the first `LOG_LIMIT` bytes of a diagnostic log.
pub fn truncated_log(log: Vec<u8>) -> (r: Vec<u8>)
    ensures
        r@ == spec_truncated(log@),
        r@.len() <= LOG_LIMIT,
{
    let mut log = log;
    if log.len() > LOG_LIMIT {
        log.truncate(LOG_LIMIT);
    }
    log
}

/// Turn the driver's report on one compile step into this library's result:
/// on success the stage object's handle, otherwise an error that names the
/// failing stage and carries the truncated log.
pub fn compile_outcome(stage: Stage, success: bool, shader_id: u32, log: Vec<u8>) -> (r: Result<
    u32,
    ShaderError,
>)
    ensures
        success ==> r == Ok::<u32, ShaderError>(shader_id),
        !success ==> (r matches Err(ShaderError::CompileFailure { stage: s, log: l })
            && s == stage && l@ == spec_truncated(log@)),
{
    if success {
        Ok(shader_id)
    } else {
        Err(ShaderError::CompileFailure { stage, log: truncated_log(log) })
    }
}

/// Turn the driver's report on the link step into this library's result: on
/// success a program wrapping the non-zero handle, otherwise a link error
/// carrying the truncated log.
pub fn link_outcome(success: bool, program_id: u32, log: Vec<u8>) -> (r: Result<
    ShaderProgram,
    ShaderError,
>)
    requires
        success ==> program_id != 0,
    ensures
        success ==> (r matches Ok(p) && p.id == program_id && p.wf()),
        !success ==> (r matches Err(ShaderError::LinkFailure { log: l })
            && l@ == spec_truncated(log@)),
{
    if success {
        Ok(ShaderProgram { id: program_id })
    } else {
        Err(ShaderError::LinkFailure { log: truncated_log(log) })
    }
}

/// A uniform name in the form the driver's lookup wants it: the name's bytes
/// followed by one terminating zero byte, with no zero byte inside the name.
pub struct Uniform {
    name: Vec<u8>,
}

impl View for Uniform {
    type V = Seq<u8>;

    closed spec fn view(&self) -> Seq<u8> {
        self.name@
    }
}

impl Uniform {
    pub open spec fn wf(self) -> bool {
        &&& self@.len() >= 1
        &&& self@.last() == 0
        &&& forall|i: int| 0 <= i < self@.len() - 1 ==> self@[i] != 0
    }

    /// Validate and terminate a uniform name: rejected exactly when the name
    /// already holds a zero byte.
    pub fn new(name: &[u8]) -> (r: Option<Uniform>)
        ensures
            r is None <==> (exists|i: int| 0 <= i < name@.len() && name@[i] == 0),
            r matches Some(u) ==> u@ == name@ + seq![0u8] && u.wf(),
    {
        let mut out: Vec<u8> = Vec::new();
        let mut i: usize = 0;
        while i < name.len()
            invariant
                i <= name@.len(),
                out@ == name@.subrange(0, i as int),
                forall|k: int| 0 <= k < i ==> name@[k] != 0,
            decreases name@.len() - i,
        {
            let b = name[i];
            if b == 0 {
                return None;
            }
            out.push(b);
            i += 1;
        }
        assert(out@ == name@);
        out.push(0);
        let u = Uniform { name: out };
        assert(u@ == name@ + seq![0u8]);
        assert(u.wf());
        Some(u)
    }

    /// The terminated bytes, for the driver's name lookup.
    pub fn as_bytes(&self) -> (r: &Vec<u8>)
        ensures
            r@ == self@,
    {
        &self.name
    }
}

/// The integer the driver stores for a boolean uniform value.
pub fn uniform_int_of_bool(value: bool) -> (r: i32)
    ensures
        value ==> r == 1,
        !value ==> r == 0,
{
    if value {
        1
    } else {
        0
    }
}

} // verus!
