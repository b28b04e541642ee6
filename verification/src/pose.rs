//! Poses: what deforms a mesh while it is drawn.
//!
//! Joint matrices and morph weights are driven from frame to frame, so they are
//! components of entities of their own; a mesh's entity names them with a
//! [`SkinBinding`](crate::components::SkinBinding) and a
//! [`MorphBinding`](crate::components::MorphBinding). This module decides
//! whether a mesh has the pose it needs, before anything reads one that is not
//! there, and lays the poses of a frame out the way they are uploaded.

use vstd::prelude::*;

use crate::components::GpuMesh;
use crate::scalar::Scalar;

verus! {

/// The joint matrices one pose is drawn with. `J` is one matrix.
#[derive(Clone, Debug, PartialEq, Eq)]
pub struct SkinPose<J> {
    /// One matrix per joint, in the order the mesh's joint indices address
    /// them.
    pub matrices: Vec<J>,
}

impl<J> SkinPose<J> {
    /// A pose of `matrices`, one per joint.
    pub fn new(matrices: Vec<J>) -> (pose: Self)
        ensures
            pose.matrices == matrices,
    {
        SkinPose { matrices }
    }
}

impl<J> Default for SkinPose<J> {
    fn default() -> (pose: Self)
        ensures
            pose.matrices@ == Seq::<J>::empty(),
    {
        SkinPose { matrices: Vec::new() }
    }
}

/// The morph-target weights one pose blends with.
#[derive(Clone, Debug, PartialEq, Eq)]
pub struct MorphWeights {
    /// One weight per morph target, in target order.
    pub weights: Vec<Scalar>,
}

impl MorphWeights {
    /// A pose blending `weights`, one per target.
    pub fn new(weights: Vec<Scalar>) -> (pose: Self)
        ensures
            pose.weights == weights,
    {
        MorphWeights { weights }
    }
}

impl Default for MorphWeights {
    fn default() -> (pose: Self)
        ensures
            pose.weights@ == Seq::<Scalar>::empty(),
    {
        MorphWeights { weights: Vec::new() }
    }
}

/// Why a mesh cannot be uploaded or drawn as it is.
#[derive(Clone, Copy, Debug, PartialEq, Eq, Structural)]
pub enum PoseError {
    /// A variant that reads joints needs the mesh's skin.
    NoSkin,
    /// A variant that reads morph positions needs the mesh's morph targets.
    NoTargets,
    /// A mesh whose vertices carry joints needs a pose to be drawn with.
    NoSkinBinding,
    /// A mesh with morph targets needs weights to be drawn with.
    NoMorphBinding,
    /// A mesh's morph weights must hold one weight per morph target.
    WeightCount,
}

/// What a variant reads of a mesh's deformation, and what the mesh brings.
#[derive(Clone, Copy, Debug, PartialEq, Eq, Structural)]
pub struct Deformation {
    /// Whether the variant reads joints.
    pub reads_joints: bool,
    /// Whether the mesh brings the joints and joint weights of its vertices.
    pub has_skin: bool,
    /// Whether the variant reads morph positions.
    pub reads_morphs: bool,
    /// How many morph targets the mesh brings.
    pub morph_targets: u32,
}

/// Which deformation channel a mesh lacks that its variant reads, if any.
pub open spec fn channel_fault(deformation: Deformation) -> Option<PoseError> {
    if deformation.reads_joints && !deformation.has_skin {
        Some(PoseError::NoSkin)
    } else if deformation.reads_morphs && deformation.morph_targets == 0 {
        Some(PoseError::NoTargets)
    } else {
        None
    }
}

/// Whether a mesh brings the deformation channels its variant reads: one it
/// lacks is refused rather than drawn undeformed. A channel the variant does
/// not read is not asked for.
pub fn check_channels(deformation: Deformation) -> (checked: Result<(), PoseError>)
    ensures
        checked == match channel_fault(deformation) {
            Some(error) => Err(error),
            None => Ok(()),
        },
        checked == if deformation.reads_joints && !deformation.has_skin {
            Err(PoseError::NoSkin)
        } else if deformation.reads_morphs && deformation.morph_targets == 0 {
            Err(PoseError::NoTargets)
        } else {
            Ok(())
        },
{
    if deformation.reads_joints && !deformation.has_skin {
        return Err(PoseError::NoSkin);
    }
    if deformation.reads_morphs && deformation.morph_targets == 0 {
        return Err(PoseError::NoTargets);
    }
    Ok(())
}

/// What keeps a mesh with this skin and these morph targets from being drawn
/// with a pose of `joints` matrices and `weights` weights, each `None` where
/// the mesh's entity names none.
pub open spec fn pose_fault(
    skinned: bool,
    morph_targets: u32,
    joints: Option<nat>,
    weights: Option<nat>,
) -> Option<PoseError> {
    if skinned && joints is None {
        Some(PoseError::NoSkinBinding)
    } else if morph_targets == 0 {
        None
    } else {
        match weights {
            None => Some(PoseError::NoMorphBinding),
            Some(count) => if count == morph_targets {
                None
            } else {
                Some(PoseError::WeightCount)
            },
        }
    }
}

/// Whether `mesh` can be drawn with the pose its entity names. It is checked
/// every frame: a mesh with too few weights would have weights read that do
/// not exist. A mesh without joints ignores the skin it is bound to, and one
/// without targets the weights.
pub fn check_pose<J>(
    mesh: &GpuMesh,
    skin: Option<&SkinPose<J>>,
    morph: Option<&MorphWeights>,
) -> (checked: Result<(), PoseError>)
    ensures
        ({
            let fault = pose_fault(
                mesh@.skinned,
                mesh@.morph_targets,
                match skin {
                    Some(pose) => Some(pose.matrices@.len()),
                    None => None,
                },
                match morph {
                    Some(pose) => Some(pose.weights@.len()),
                    None => None,
                },
            );
            checked == match fault {
                Some(error) => Err(error),
                None => Ok(()),
            }
        }),
{
    if mesh.skinned && skin.is_none() {
        return Err(PoseError::NoSkinBinding);
    }
    if mesh.morph_targets == 0 {
        return Ok(());
    }
    match morph {
        None => Err(PoseError::NoMorphBinding),
        Some(pose) => if pose.weights.len() as u64 == mesh.morph_targets as u64 {
            Ok(())
        } else {
            Err(PoseError::WeightCount)
        },
    }
}

/// Every weight a draw reads is there: a mesh that passes names at least as
/// many weights as it has targets, and one with targets exactly as many.
pub proof fn law_every_weight_is_there(
    skinned: bool,
    morph_targets: u32,
    joints: Option<nat>,
    weights: Option<nat>,
)
    requires
        pose_fault(skinned, morph_targets, joints, weights) is None,
    ensures
        skinned ==> joints is Some,
        morph_targets > 0 ==> weights == Some(morph_targets as nat),
{
}

/// Where the pose of one instance starts among the poses of its frame.
#[derive(Clone, Copy, Debug, PartialEq, Eq, Structural)]
pub struct PoseStart {
    /// Its first joint matrix.
    pub first_joint: u32,
    /// Its first morph weight.
    pub first_weight: u32,
}

/// The poses of a frame, ready to be uploaded: the joint matrices of every
/// instance one after another, its morph weights likewise, and for each
/// instance where its own start. Instances are in draw order.
///
/// The lists are kept from frame to frame and refilled.
#[derive(Debug)]
pub struct FramePoses<J> {
    /// The joint matrices.
    pub joints: Vec<J>,
    /// The morph weights.
    pub weights: Vec<Scalar>,
    /// Where each instance's pose starts.
    pub starts: Vec<PoseStart>,
}

/// What a [`FramePoses`] holds.
#[verifier::ext_equal]
pub struct PosesModel<J> {
    /// The joint matrices.
    pub joints: Seq<J>,
    /// The morph weights.
    pub weights: Seq<Scalar>,
    /// Where each instance's pose starts.
    pub starts: Seq<PoseStart>,
}

impl<J> PosesModel<J> {
    /// No poses.
    pub open spec fn none() -> PosesModel<J> {
        PosesModel { joints: Seq::empty(), weights: Seq::empty(), starts: Seq::empty() }
    }

    /// The poses once one more instance reads `joints` and `weights`.
    pub open spec fn with(self, joints: Seq<J>, weights: Seq<Scalar>) -> PosesModel<J> {
        PosesModel {
            joints: self.joints + joints,
            weights: self.weights + weights,
            starts: self.starts.push(
                PoseStart {
                    first_joint: self.joints.len() as u32,
                    first_weight: self.weights.len() as u32,
                },
            ),
        }
    }

    /// The poses of instances that read `poses`, first to last.
    pub open spec fn of(poses: Seq<(Seq<J>, Seq<Scalar>)>) -> PosesModel<J>
        decreases poses.len(),
    {
        if poses.len() == 0 {
            PosesModel::none()
        } else {
            PosesModel::of(poses.drop_last()).with(poses.last().0, poses.last().1)
        }
    }
}

impl<J> View for FramePoses<J> {
    type V = PosesModel<J>;

    open spec fn view(&self) -> PosesModel<J> {
        PosesModel { joints: self.joints@, weights: self.weights@, starts: self.starts@ }
    }
}

/// The joint matrices an instance of a mesh reads: those of its pose, and none
/// where its vertices carry no joints.
pub open spec fn joints_read<J>(skinned: bool, skin: Option<Seq<J>>) -> Seq<J> {
    match skin {
        Some(matrices) if skinned => matrices,
        _ => Seq::empty(),
    }
}

/// The morph weights an instance of a mesh reads: those of its pose, and none
/// where it has no targets.
pub open spec fn weights_read(morph_targets: u32, morph: Option<Seq<Scalar>>) -> Seq<Scalar> {
    match morph {
        Some(weights) if morph_targets > 0 => weights,
        _ => Seq::empty(),
    }
}

/// Append a copy of `items` to `list`.
fn extend_with<T: Copy>(list: &mut Vec<T>, items: &Vec<T>)
    ensures
        final(list)@ == old(list)@ + items@,
{
    let ghost before = list@;
    let mut i: usize = 0;
    assert(before + items@.take(0) =~= before);
    while i < items.len()
        invariant
            i <= items.len(),
            list@ == before + items@.take(i as int),
        decreases items.len() - i,
    {
        list.push(items[i]);
        i = i + 1;
        assert(list@ =~= before + items@.take(i as int));
    }
    assert(items@.take(i as int) =~= items@);
}

impl<J: Copy> FramePoses<J> {
    /// The poses of a frame that draws nothing.
    pub fn new() -> (poses: Self)
        ensures
            poses@ == PosesModel::<J>::none(),
    {
        FramePoses { joints: Vec::new(), weights: Vec::new(), starts: Vec::new() }
    }

    /// Start over for the next frame, in the same lists.
    pub fn clear(&mut self)
        ensures
            final(self)@ == PosesModel::<J>::none(),
    {
        self.joints.clear();
        self.weights.clear();
        self.starts.clear();
    }

    /// Append the pose the next instance is drawn with, an instance of `mesh`
    /// whose entity names these poses. One that [`check_pose`] refuses is not
    /// appended.
    pub fn push(
        &mut self,
        mesh: &GpuMesh,
        skin: Option<&SkinPose<J>>,
        morph: Option<&MorphWeights>,
    ) -> (pushed: Result<(), PoseError>)
        requires
            old(self)@.joints.len() <= u32::MAX,
            old(self)@.weights.len() <= u32::MAX,
        ensures
            ({
                let skin = match skin {
                    Some(pose) => Some(pose.matrices@),
                    None => None,
                };
                let morph = match morph {
                    Some(pose) => Some(pose.weights@),
                    None => None,
                };
                let fault = pose_fault(
                    mesh@.skinned,
                    mesh@.morph_targets,
                    match skin {
                        Some(matrices) => Some(matrices.len()),
                        None => None,
                    },
                    match morph {
                        Some(weights) => Some(weights.len()),
                        None => None,
                    },
                );
                match fault {
                    Some(error) => pushed == Err::<(), PoseError>(error) && final(self)@ == old(
                        self,
                    )@,
                    None => pushed is Ok && final(self)@ == old(self)@.with(
                        joints_read(mesh@.skinned, skin),
                        weights_read(mesh@.morph_targets, morph),
                    ),
                }
            }),
    {
        if let Err(error) = check_pose(mesh, skin, morph) {
            return Err(error);
        }
        let ghost before = self@;
        self.starts.push(
            PoseStart {
                first_joint: self.joints.len() as u32,
                first_weight: self.weights.len() as u32,
            },
        );
        if mesh.skinned {
            if let Some(pose) = skin {
                extend_with(&mut self.joints, &pose.matrices);
            }
        }
        if mesh.morph_targets > 0 {
            if let Some(pose) = morph {
                extend_with(&mut self.weights, &pose.weights);
            }
        }
        assert(before.joints + Seq::<J>::empty() =~= before.joints);
        assert(before.weights + Seq::<Scalar>::empty() =~= before.weights);
        Ok(())
    }
}

/// Poses laid out earlier stay where they are.
proof fn lemma_earlier_poses_stay<J>(poses: Seq<(Seq<J>, Seq<Scalar>)>, k: int)
    requires
        0 <= k <= poses.len(),
    ensures
        PosesModel::of(poses).starts.len() == poses.len(),
        PosesModel::of(poses.take(k)).joints.is_prefix_of(PosesModel::of(poses).joints),
        PosesModel::of(poses.take(k)).weights.is_prefix_of(PosesModel::of(poses).weights),
        PosesModel::of(poses.take(k)).starts.is_prefix_of(PosesModel::of(poses).starts),
    decreases poses.len(),
{
    if k == poses.len() {
        assert(poses.take(k) =~= poses);
    }
    if poses.len() > 0 {
        let rest = poses.drop_last();
        if k < poses.len() {
            lemma_earlier_poses_stay(rest, k);
            assert(rest.take(k) =~= poses.take(k));
        } else {
            lemma_earlier_poses_stay(rest, 0);
        }
    }
}

/// Every instance is drawn with its own pose: what it reads from where its pose
/// starts is exactly the matrices and the weights its entity names, also where
/// instances share a mesh, and whatever the others read.
pub proof fn law_an_instance_reads_its_own_pose<J>(poses: Seq<(Seq<J>, Seq<Scalar>)>, i: int)
    requires
        0 <= i < poses.len(),
        PosesModel::of(poses).joints.len() <= u32::MAX,
        PosesModel::of(poses).weights.len() <= u32::MAX,
    ensures
        PosesModel::of(poses).starts.len() == poses.len(),
        ({
            let packed = PosesModel::of(poses);
            let joint = packed.starts[i].first_joint as int;
            let weight = packed.starts[i].first_weight as int;
            let (joints, weights) = poses[i];
            &&& joint + joints.len() <= packed.joints.len()
            &&& packed.joints.subrange(joint, joint + joints.len()) == joints
            &&& weight + weights.len() <= packed.weights.len()
            &&& packed.weights.subrange(weight, weight + weights.len()) == weights
        }),
{
    let packed = PosesModel::of(poses);
    let before = PosesModel::of(poses.take(i));
    let next = poses.take(i + 1);
    let after = PosesModel::of(next);
    let (joints, weights) = poses[i];
    lemma_earlier_poses_stay(poses, i + 1);
    lemma_earlier_poses_stay(next, i);
    assert(next.take(i) =~= poses.take(i));
    assert(next.drop_last() =~= poses.take(i));
    assert(next.last() == poses[i]);
    assert(after == before.with(joints, weights));
    lemma_earlier_poses_stay(poses.take(i), 0);
    assert(packed.starts[i] == after.starts[i]);
    let joint = before.joints.len() as int;
    let weight = before.weights.len() as int;
    assert(packed.starts[i].first_joint == joint);
    assert(packed.starts[i].first_weight == weight);
    assert(packed.joints.subrange(joint, joint + joints.len()) =~= joints) by {
        assert forall|k: int| 0 <= k < joints.len() implies packed.joints[joint + k]
            == joints[k] by {
            assert(after.joints[joint + k] == joints[k]);
        }
    }
    assert(packed.weights.subrange(weight, weight + weights.len()) =~= weights) by {
        assert forall|k: int| 0 <= k < weights.len() implies packed.weights[weight + k]
            == weights[k] by {
            assert(after.weights[weight + k] == weights[k]);
        }
    }
}

/// A mesh can be drawn exactly when it has the pose it reads: a skin where its
/// vertices carry joints, and one weight per morph target where it has targets.
/// What it does not read is not asked for.
pub proof fn law_a_mesh_needs_exactly_what_it_reads(
    skinned: bool,
    morph_targets: u32,
    joints: Option<nat>,
    weights: Option<nat>,
)
    ensures
        pose_fault(skinned, morph_targets, joints, weights) is None <==> (skinned ==> joints
            is Some) && (morph_targets > 0 ==> weights == Some(morph_targets as nat)),
        skinned && joints is None ==> pose_fault(skinned, morph_targets, joints, weights) == Some(
            PoseError::NoSkinBinding,
        ),
        (skinned ==> joints is Some) && morph_targets > 0 && weights is None ==> pose_fault(
            skinned,
            morph_targets,
            joints,
            weights,
        ) == Some(PoseError::NoMorphBinding),
        (skinned ==> joints is Some) && morph_targets > 0 && weights is Some && weights
            != Some(morph_targets as nat) ==> pose_fault(skinned, morph_targets, joints, weights)
            == Some(PoseError::WeightCount),
{
}

/// An instance reads all of the pose it is bound to: every matrix where its
/// vertices carry joints and every weight where it has targets, and nothing of a
/// pose it does not read.
pub proof fn law_an_instance_reads_all_of_its_pose<J>(
    skinned: bool,
    morph_targets: u32,
    matrices: Seq<J>,
    weights: Seq<Scalar>,
)
    ensures
        skinned ==> joints_read(skinned, Some(matrices)) == matrices,
        !skinned ==> joints_read(skinned, Some(matrices)).len() == 0,
        joints_read(skinned, None::<Seq<J>>).len() == 0,
        morph_targets > 0 ==> weights_read(morph_targets, Some(weights)) == weights,
        morph_targets == 0 ==> weights_read(morph_targets, Some(weights)).len() == 0,
        weights_read(morph_targets, None).len() == 0,
{
}

/// The poses of a frame hold what its instances read and no more.
pub proof fn law_a_frame_holds_no_other_pose<J>(poses: Seq<(Seq<J>, Seq<Scalar>)>)
    ensures
        poses.len() == 0 ==> PosesModel::of(poses).joints.len() == 0 && PosesModel::of(
            poses,
        ).weights.len() == 0,
        poses.len() > 0 ==> PosesModel::of(poses).joints.len() == PosesModel::of(
            poses.drop_last(),
        ).joints.len() + poses.last().0.len() && PosesModel::of(poses).weights.len()
            == PosesModel::of(poses.drop_last()).weights.len() + poses.last().1.len(),
{
}

/// A mesh is uploaded exactly when it brings what its variant reads: joints for
/// one that reads joints, and at least one target for one that reads morph
/// positions. Bringing more than is read is no fault.
pub proof fn law_a_variant_is_refused_what_it_lacks(deformation: Deformation)
    ensures
        channel_fault(deformation) is None <==> (deformation.reads_joints ==> deformation.has_skin)
            && (deformation.reads_morphs ==> deformation.morph_targets > 0),
        deformation.reads_joints && !deformation.has_skin ==> channel_fault(deformation) == Some(
            PoseError::NoSkin,
        ),
        channel_fault(deformation) == Some(PoseError::NoTargets) ==> deformation.reads_morphs
            && deformation.morph_targets == 0,
{
}

} // verus!
