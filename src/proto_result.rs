use vstd::prelude::*;
use crate::decompile::{file_text, heights, messages_height, RenderError};
use crate::descriptor::FileDesc;
use crate::proto_writer::ProtoWriter;

verus! {

/// The source text reconstructed from one file descriptor.
pub struct ProtoResult {
    pub value: String,
}

impl ProtoResult {
    /// Renders `proto` with a fresh writer.
    pub fn new(proto: FileDesc) -> (r: Result<ProtoResult, RenderError>)
        ensures
            heights(proto.messages@) >= usize::MAX ==> r == Err::<ProtoResult, RenderError>(
                RenderError::NestingTooDeep,
            ),
            heights(proto.messages@) < usize::MAX ==> match file_text(proto) {
                Ok(t) => r is Ok && r->Ok_0.value@ == t,
                Err(e) => r == Err::<ProtoResult, RenderError>(e),
            },
    {
        if messages_height(&proto.messages) == usize::MAX {
            return Err(RenderError::NestingTooDeep);
        }
        let mut writer = ProtoWriter::new();
        match writer.generate_proto_file(&proto) {
            Err(e) => Err(e),
            Ok(()) => Ok(ProtoResult { value: writer.result() }),
        }
    }
}

} // verus!
