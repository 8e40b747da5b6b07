use vstd::prelude::*;

use crate::blocks::{Node, SuperBlock};

verus! {

/// Bytes of a node stream: each node's sector, in order.
pub open spec fn nodes_bytes(ns: Seq<Node>) -> Seq<u8>
    decreases ns.len(),
{
    if ns.len() == 0 {
        Seq::empty()
    } else {
        nodes_bytes(ns.drop_last()) + ns.last().encoded()
    }
}

/// The image as it is written: boot code, superblock record, node stream.
pub open spec fn image_bytes(boot: Seq<u8>, sb: SuperBlock, ns: Seq<Node>) -> Seq<u8> {
    boot + sb.encoded() + nodes_bytes(ns)
}

/// Everything that goes into one image, owned until it is built.
pub struct Image {
    pub sb: SuperBlock,
    pub boot: Vec<u8>,
    pub nodes: Vec<Node>,
}

impl Image {
    pub open spec fn wf(&self) -> bool {
        forall|i: int| 0 <= i < self.nodes@.len() ==> #[trigger] self.nodes@[i].wf()
    }

    /// An image of boot code and a superblock, with no nodes yet.
    pub fn new(sb: SuperBlock, boot: Vec<u8>) -> (r: Image)
        ensures
            r.sb == sb,
            r.boot@ == boot@,
            r.nodes@.len() == 0,
            r.wf(),
    {
        Image { sb, boot, nodes: Vec::new() }
    }

    /// Appends the image to `target`, moving the boot code and the nodes out.
    pub fn build(&mut self, target: &mut Vec<u8>)
        requires
            old(self).wf(),
        ensures
            final(target)@ == old(target)@ + image_bytes(old(self).boot@, old(self).sb, old(self).nodes@),
            final(self).sb == old(self).sb,
            final(self).boot@.len() == 0,
            final(self).nodes@.len() == 0,
            final(self).wf(),
    {
        let ghost start = target@;
        let ghost ns = self.nodes@;
        target.append(&mut self.boot);
        let mut sb_bytes = self.sb.to_bytes();
        target.append(&mut sb_bytes);
        let ghost head = target@;
        assert(head =~= start + old(self).boot@ + self.sb.encoded());
        let mut i: usize = 0;
        while i < self.nodes.len()
            invariant
                self.nodes@ == ns,
                i <= ns.len(),
                forall|k: int| 0 <= k < ns.len() ==> #[trigger] ns[k].wf(),
                target@ == head + nodes_bytes(ns.subrange(0, i as int)),
            decreases ns.len() - i,
        {
            self.nodes[i].write_into(target);
            assert(ns.subrange(0, i + 1).drop_last() =~= ns.subrange(0, i as int));
            i = i + 1;
        }
        assert(ns.subrange(0, i as int) =~= ns);
        self.nodes = Vec::new();
    }
}

} // verus!
