//! The coarse structure of an FBX file the parser tracks: the state a
//! node's name leads to from its parent's state, and which nodes hold
//! arrays, of what element type and where they are stored.
use vstd::prelude::*;
use crate::obj::bytes_equal;

verus! {

/// Where the parser is in the node tree: the kind of the enclosing node.
#[derive(Clone, Copy, Debug, PartialEq, Eq, Structural)]
pub enum ParseState {
    Root,
    FbxHeaderExtension,
    SceneInfo,
    Thumbnail,
    Definitions,
    Objects,
    Connections,
    Relations,
    Takes,
    FbxVersion,
    Model,
    Geometry,
    NodeAttribute,
    LegacyModel,
    LegacyMedia,
    LegacyVideo,
    LegacySwitcher,
    LegacyScenePersistence,
    References,
    Reference,
    AnimationCurve,
    Deformer,
    AssociateModel,
    LegacyLink,
    Pose,
    PoseNode,
    Texture,
    Video,
    LayeredTexture,
    SelectionNode,
    Collection,
    Audio,
    UnknownObject,
    LayerElementNormal,
    LayerElementBinormal,
    LayerElementTangent,
    LayerElementUv,
    LayerElementColor,
    LayerElementVertexCrease,
    LayerElementEdgeCrease,
    LayerElementSmoothing,
    LayerElementVisibility,
    LayerElementPolygonGroup,
    LayerElementHole,
    LayerElementMaterial,
    LayerElementOther,
    GeometryUvInfo,
    Shape,
    Take,
    TakeObject,
    Channel,
    Unknown,
}

/// The node and directive names the parse state machine recognizes.
#[derive(Clone, Copy, Debug, PartialEq, Eq, Structural)]
pub enum Word {
    Alphas,
    AnimationCurve,
    AssociateModel,
    Audio,
    BinaryData,
    Binormals,
    BinormalsIndex,
    BinormalsW,
    BlendModes,
    BlendWeights,
    Channel,
    Children,
    Collection,
    ColorIndex,
    Colors,
    Connections,
    Content,
    Cropping,
    Definitions,
    Deformer,
    EdgeCrease,
    EdgeIndexArray,
    Edges,
    FBXHeaderExtension,
    FBXVersion,
    FullWeights,
    Geometry,
    GeometryUVInfo,
    Hole,
    ImageData,
    Indexes,
    Key,
    KeyAttrDataFloat,
    KeyAttrFlags,
    KeyAttrRefCount,
    KeyTime,
    KeyValueFloat,
    KnotVector,
    KnotVectorU,
    KnotVectorV,
    LayerElement,
    LayerElementBinormal,
    LayerElementColor,
    LayerElementEdgeCrease,
    LayerElementHole,
    LayerElementMaterial,
    LayerElementNormal,
    LayerElementPolygonGroup,
    LayerElementSmoothing,
    LayerElementTangent,
    LayerElementUV,
    LayerElementVertexCrease,
    LayerElementVisibility,
    LayeredTexture,
    Link,
    Materials,
    Matrix,
    Media,
    Model,
    ModelUVScaling,
    ModelUVTranslation,
    NodeAttribute,
    Normals,
    NormalsIndex,
    NormalsW,
    Objects,
    Points,
    PointsIndex,
    PolygonGroup,
    PolygonIndexArray,
    PolygonVertexIndex,
    Pose,
    PoseNode,
    References,
    Relations,
    SceneGenericPersistence,
    SceneInfo,
    SelectionNode,
    Shape,
    Smoothing,
    Switcher,
    Take,
    Takes,
    Tangents,
    TangentsIndex,
    TangentsW,
    Texture,
    TextureId,
    TextureUV,
    TextureUVVerticeIndex,
    Thumbnail,
    Transform,
    TransformAssociateModel,
    TransformLink,
    UV,
    UVIndex,
    VertexCrease,
    VertexCreaseIndex,
    VertexIndexArray,
    Vertices,
    Video,
    Visibility,
    Weights,
    FileId,
    NodeAttributeName,
    Name,
    TextureName,
    Node,
    Member,
    Material,
    CameraIndexName,
    Object,
}

/// The spelling of a word.
pub open spec fn spec_word(w: Word) -> Seq<u8> {
    match w {
        Word::Alphas => seq![0x41u8, 0x6cu8, 0x70u8, 0x68u8, 0x61u8, 0x73u8],
        Word::AnimationCurve => seq![0x41u8, 0x6eu8, 0x69u8, 0x6du8, 0x61u8, 0x74u8, 0x69u8, 0x6fu8, 0x6eu8, 0x43u8, 0x75u8, 0x72u8, 0x76u8, 0x65u8],
        Word::AssociateModel => seq![0x41u8, 0x73u8, 0x73u8, 0x6fu8, 0x63u8, 0x69u8, 0x61u8, 0x74u8, 0x65u8, 0x4du8, 0x6fu8, 0x64u8, 0x65u8, 0x6cu8],
        Word::Audio => seq![0x41u8, 0x75u8, 0x64u8, 0x69u8, 0x6fu8],
        Word::BinaryData => seq![0x42u8, 0x69u8, 0x6eu8, 0x61u8, 0x72u8, 0x79u8, 0x44u8, 0x61u8, 0x74u8, 0x61u8],
        Word::Binormals => seq![0x42u8, 0x69u8, 0x6eu8, 0x6fu8, 0x72u8, 0x6du8, 0x61u8, 0x6cu8, 0x73u8],
        Word::BinormalsIndex => seq![0x42u8, 0x69u8, 0x6eu8, 0x6fu8, 0x72u8, 0x6du8, 0x61u8, 0x6cu8, 0x73u8, 0x49u8, 0x6eu8, 0x64u8, 0x65u8, 0x78u8],
        Word::BinormalsW => seq![0x42u8, 0x69u8, 0x6eu8, 0x6fu8, 0x72u8, 0x6du8, 0x61u8, 0x6cu8, 0x73u8, 0x57u8],
        Word::BlendModes => seq![0x42u8, 0x6cu8, 0x65u8, 0x6eu8, 0x64u8, 0x4du8, 0x6fu8, 0x64u8, 0x65u8, 0x73u8],
        Word::BlendWeights => seq![0x42u8, 0x6cu8, 0x65u8, 0x6eu8, 0x64u8, 0x57u8, 0x65u8, 0x69u8, 0x67u8, 0x68u8, 0x74u8, 0x73u8],
        Word::Channel => seq![0x43u8, 0x68u8, 0x61u8, 0x6eu8, 0x6eu8, 0x65u8, 0x6cu8],
        Word::Children => seq![0x43u8, 0x68u8, 0x69u8, 0x6cu8, 0x64u8, 0x72u8, 0x65u8, 0x6eu8],
        Word::Collection => seq![0x43u8, 0x6fu8, 0x6cu8, 0x6cu8, 0x65u8, 0x63u8, 0x74u8, 0x69u8, 0x6fu8, 0x6eu8],
        Word::ColorIndex => seq![0x43u8, 0x6fu8, 0x6cu8, 0x6fu8, 0x72u8, 0x49u8, 0x6eu8, 0x64u8, 0x65u8, 0x78u8],
        Word::Colors => seq![0x43u8, 0x6fu8, 0x6cu8, 0x6fu8, 0x72u8, 0x73u8],
        Word::Connections => seq![0x43u8, 0x6fu8, 0x6eu8, 0x6eu8, 0x65u8, 0x63u8, 0x74u8, 0x69u8, 0x6fu8, 0x6eu8, 0x73u8],
        Word::Content => seq![0x43u8, 0x6fu8, 0x6eu8, 0x74u8, 0x65u8, 0x6eu8, 0x74u8],
        Word::Cropping => seq![0x43u8, 0x72u8, 0x6fu8, 0x70u8, 0x70u8, 0x69u8, 0x6eu8, 0x67u8],
        Word::Definitions => seq![0x44u8, 0x65u8, 0x66u8, 0x69u8, 0x6eu8, 0x69u8, 0x74u8, 0x69u8, 0x6fu8, 0x6eu8, 0x73u8],
        Word::Deformer => seq![0x44u8, 0x65u8, 0x66u8, 0x6fu8, 0x72u8, 0x6du8, 0x65u8, 0x72u8],
        Word::EdgeCrease => seq![0x45u8, 0x64u8, 0x67u8, 0x65u8, 0x43u8, 0x72u8, 0x65u8, 0x61u8, 0x73u8, 0x65u8],
        Word::EdgeIndexArray => seq![0x45u8, 0x64u8, 0x67u8, 0x65u8, 0x49u8, 0x6eu8, 0x64u8, 0x65u8, 0x78u8, 0x41u8, 0x72u8, 0x72u8, 0x61u8, 0x79u8],
        Word::Edges => seq![0x45u8, 0x64u8, 0x67u8, 0x65u8, 0x73u8],
        Word::FBXHeaderExtension => seq![0x46u8, 0x42u8, 0x58u8, 0x48u8, 0x65u8, 0x61u8, 0x64u8, 0x65u8, 0x72u8, 0x45u8, 0x78u8, 0x74u8, 0x65u8, 0x6eu8, 0x73u8, 0x69u8, 0x6fu8, 0x6eu8],
        Word::FBXVersion => seq![0x46u8, 0x42u8, 0x58u8, 0x56u8, 0x65u8, 0x72u8, 0x73u8, 0x69u8, 0x6fu8, 0x6eu8],
        Word::FullWeights => seq![0x46u8, 0x75u8, 0x6cu8, 0x6cu8, 0x57u8, 0x65u8, 0x69u8, 0x67u8, 0x68u8, 0x74u8, 0x73u8],
        Word::Geometry => seq![0x47u8, 0x65u8, 0x6fu8, 0x6du8, 0x65u8, 0x74u8, 0x72u8, 0x79u8],
        Word::GeometryUVInfo => seq![0x47u8, 0x65u8, 0x6fu8, 0x6du8, 0x65u8, 0x74u8, 0x72u8, 0x79u8, 0x55u8, 0x56u8, 0x49u8, 0x6eu8, 0x66u8, 0x6fu8],
        Word::Hole => seq![0x48u8, 0x6fu8, 0x6cu8, 0x65u8],
        Word::ImageData => seq![0x49u8, 0x6du8, 0x61u8, 0x67u8, 0x65u8, 0x44u8, 0x61u8, 0x74u8, 0x61u8],
        Word::Indexes => seq![0x49u8, 0x6eu8, 0x64u8, 0x65u8, 0x78u8, 0x65u8, 0x73u8],
        Word::Key => seq![0x4bu8, 0x65u8, 0x79u8],
        Word::KeyAttrDataFloat => seq![0x4bu8, 0x65u8, 0x79u8, 0x41u8, 0x74u8, 0x74u8, 0x72u8, 0x44u8, 0x61u8, 0x74u8, 0x61u8, 0x46u8, 0x6cu8, 0x6fu8, 0x61u8, 0x74u8],
        Word::KeyAttrFlags => seq![0x4bu8, 0x65u8, 0x79u8, 0x41u8, 0x74u8, 0x74u8, 0x72u8, 0x46u8, 0x6cu8, 0x61u8, 0x67u8, 0x73u8],
        Word::KeyAttrRefCount => seq![0x4bu8, 0x65u8, 0x79u8, 0x41u8, 0x74u8, 0x74u8, 0x72u8, 0x52u8, 0x65u8, 0x66u8, 0x43u8, 0x6fu8, 0x75u8, 0x6eu8, 0x74u8],
        Word::KeyTime => seq![0x4bu8, 0x65u8, 0x79u8, 0x54u8, 0x69u8, 0x6du8, 0x65u8],
        Word::KeyValueFloat => seq![0x4bu8, 0x65u8, 0x79u8, 0x56u8, 0x61u8, 0x6cu8, 0x75u8, 0x65u8, 0x46u8, 0x6cu8, 0x6fu8, 0x61u8, 0x74u8],
        Word::KnotVector => seq![0x4bu8, 0x6eu8, 0x6fu8, 0x74u8, 0x56u8, 0x65u8, 0x63u8, 0x74u8, 0x6fu8, 0x72u8],
        Word::KnotVectorU => seq![0x4bu8, 0x6eu8, 0x6fu8, 0x74u8, 0x56u8, 0x65u8, 0x63u8, 0x74u8, 0x6fu8, 0x72u8, 0x55u8],
        Word::KnotVectorV => seq![0x4bu8, 0x6eu8, 0x6fu8, 0x74u8, 0x56u8, 0x65u8, 0x63u8, 0x74u8, 0x6fu8, 0x72u8, 0x56u8],
        Word::LayerElement => seq![0x4cu8, 0x61u8, 0x79u8, 0x65u8, 0x72u8, 0x45u8, 0x6cu8, 0x65u8, 0x6du8, 0x65u8, 0x6eu8, 0x74u8],
        Word::LayerElementBinormal => seq![0x4cu8, 0x61u8, 0x79u8, 0x65u8, 0x72u8, 0x45u8, 0x6cu8, 0x65u8, 0x6du8, 0x65u8, 0x6eu8, 0x74u8, 0x42u8, 0x69u8, 0x6eu8, 0x6fu8, 0x72u8, 0x6du8, 0x61u8, 0x6cu8],
        Word::LayerElementColor => seq![0x4cu8, 0x61u8, 0x79u8, 0x65u8, 0x72u8, 0x45u8, 0x6cu8, 0x65u8, 0x6du8, 0x65u8, 0x6eu8, 0x74u8, 0x43u8, 0x6fu8, 0x6cu8, 0x6fu8, 0x72u8],
        Word::LayerElementEdgeCrease => seq![0x4cu8, 0x61u8, 0x79u8, 0x65u8, 0x72u8, 0x45u8, 0x6cu8, 0x65u8, 0x6du8, 0x65u8, 0x6eu8, 0x74u8, 0x45u8, 0x64u8, 0x67u8, 0x65u8, 0x43u8, 0x72u8, 0x65u8, 0x61u8, 0x73u8, 0x65u8],
        Word::LayerElementHole => seq![0x4cu8, 0x61u8, 0x79u8, 0x65u8, 0x72u8, 0x45u8, 0x6cu8, 0x65u8, 0x6du8, 0x65u8, 0x6eu8, 0x74u8, 0x48u8, 0x6fu8, 0x6cu8, 0x65u8],
        Word::LayerElementMaterial => seq![0x4cu8, 0x61u8, 0x79u8, 0x65u8, 0x72u8, 0x45u8, 0x6cu8, 0x65u8, 0x6du8, 0x65u8, 0x6eu8, 0x74u8, 0x4du8, 0x61u8, 0x74u8, 0x65u8, 0x72u8, 0x69u8, 0x61u8, 0x6cu8],
        Word::LayerElementNormal => seq![0x4cu8, 0x61u8, 0x79u8, 0x65u8, 0x72u8, 0x45u8, 0x6cu8, 0x65u8, 0x6du8, 0x65u8, 0x6eu8, 0x74u8, 0x4eu8, 0x6fu8, 0x72u8, 0x6du8, 0x61u8, 0x6cu8],
        Word::LayerElementPolygonGroup => seq![0x4cu8, 0x61u8, 0x79u8, 0x65u8, 0x72u8, 0x45u8, 0x6cu8, 0x65u8, 0x6du8, 0x65u8, 0x6eu8, 0x74u8, 0x50u8, 0x6fu8, 0x6cu8, 0x79u8, 0x67u8, 0x6fu8, 0x6eu8, 0x47u8, 0x72u8, 0x6fu8, 0x75u8, 0x70u8],
        Word::LayerElementSmoothing => seq![0x4cu8, 0x61u8, 0x79u8, 0x65u8, 0x72u8, 0x45u8, 0x6cu8, 0x65u8, 0x6du8, 0x65u8, 0x6eu8, 0x74u8, 0x53u8, 0x6du8, 0x6fu8, 0x6fu8, 0x74u8, 0x68u8, 0x69u8, 0x6eu8, 0x67u8],
        Word::LayerElementTangent => seq![0x4cu8, 0x61u8, 0x79u8, 0x65u8, 0x72u8, 0x45u8, 0x6cu8, 0x65u8, 0x6du8, 0x65u8, 0x6eu8, 0x74u8, 0x54u8, 0x61u8, 0x6eu8, 0x67u8, 0x65u8, 0x6eu8, 0x74u8],
        Word::LayerElementUV => seq![0x4cu8, 0x61u8, 0x79u8, 0x65u8, 0x72u8, 0x45u8, 0x6cu8, 0x65u8, 0x6du8, 0x65u8, 0x6eu8, 0x74u8, 0x55u8, 0x56u8],
        Word::LayerElementVertexCrease => seq![0x4cu8, 0x61u8, 0x79u8, 0x65u8, 0x72u8, 0x45u8, 0x6cu8, 0x65u8, 0x6du8, 0x65u8, 0x6eu8, 0x74u8, 0x56u8, 0x65u8, 0x72u8, 0x74u8, 0x65u8, 0x78u8, 0x43u8, 0x72u8, 0x65u8, 0x61u8, 0x73u8, 0x65u8],
        Word::LayerElementVisibility => seq![0x4cu8, 0x61u8, 0x79u8, 0x65u8, 0x72u8, 0x45u8, 0x6cu8, 0x65u8, 0x6du8, 0x65u8, 0x6eu8, 0x74u8, 0x56u8, 0x69u8, 0x73u8, 0x69u8, 0x62u8, 0x69u8, 0x6cu8, 0x69u8, 0x74u8, 0x79u8],
        Word::LayeredTexture => seq![0x4cu8, 0x61u8, 0x79u8, 0x65u8, 0x72u8, 0x65u8, 0x64u8, 0x54u8, 0x65u8, 0x78u8, 0x74u8, 0x75u8, 0x72u8, 0x65u8],
        Word::Link => seq![0x4cu8, 0x69u8, 0x6eu8, 0x6bu8],
        Word::Materials => seq![0x4du8, 0x61u8, 0x74u8, 0x65u8, 0x72u8, 0x69u8, 0x61u8, 0x6cu8, 0x73u8],
        Word::Matrix => seq![0x4du8, 0x61u8, 0x74u8, 0x72u8, 0x69u8, 0x78u8],
        Word::Media => seq![0x4du8, 0x65u8, 0x64u8, 0x69u8, 0x61u8],
        Word::Model => seq![0x4du8, 0x6fu8, 0x64u8, 0x65u8, 0x6cu8],
        Word::ModelUVScaling => seq![0x4du8, 0x6fu8, 0x64u8, 0x65u8, 0x6cu8, 0x55u8, 0x56u8, 0x53u8, 0x63u8, 0x61u8, 0x6cu8, 0x69u8, 0x6eu8, 0x67u8],
        Word::ModelUVTranslation => seq![0x4du8, 0x6fu8, 0x64u8, 0x65u8, 0x6cu8, 0x55u8, 0x56u8, 0x54u8, 0x72u8, 0x61u8, 0x6eu8, 0x73u8, 0x6cu8, 0x61u8, 0x74u8, 0x69u8, 0x6fu8, 0x6eu8],
        Word::NodeAttribute => seq![0x4eu8, 0x6fu8, 0x64u8, 0x65u8, 0x41u8, 0x74u8, 0x74u8, 0x72u8, 0x69u8, 0x62u8, 0x75u8, 0x74u8, 0x65u8],
        Word::Normals => seq![0x4eu8, 0x6fu8, 0x72u8, 0x6du8, 0x61u8, 0x6cu8, 0x73u8],
        Word::NormalsIndex => seq![0x4eu8, 0x6fu8, 0x72u8, 0x6du8, 0x61u8, 0x6cu8, 0x73u8, 0x49u8, 0x6eu8, 0x64u8, 0x65u8, 0x78u8],
        Word::NormalsW => seq![0x4eu8, 0x6fu8, 0x72u8, 0x6du8, 0x61u8, 0x6cu8, 0x73u8, 0x57u8],
        Word::Objects => seq![0x4fu8, 0x62u8, 0x6au8, 0x65u8, 0x63u8, 0x74u8, 0x73u8],
        Word::Points => seq![0x50u8, 0x6fu8, 0x69u8, 0x6eu8, 0x74u8, 0x73u8],
        Word::PointsIndex => seq![0x50u8, 0x6fu8, 0x69u8, 0x6eu8, 0x74u8, 0x73u8, 0x49u8, 0x6eu8, 0x64u8, 0x65u8, 0x78u8],
        Word::PolygonGroup => seq![0x50u8, 0x6fu8, 0x6cu8, 0x79u8, 0x67u8, 0x6fu8, 0x6eu8, 0x47u8, 0x72u8, 0x6fu8, 0x75u8, 0x70u8],
        Word::PolygonIndexArray => seq![0x50u8, 0x6fu8, 0x6cu8, 0x79u8, 0x67u8, 0x6fu8, 0x6eu8, 0x49u8, 0x6eu8, 0x64u8, 0x65u8, 0x78u8, 0x41u8, 0x72u8, 0x72u8, 0x61u8, 0x79u8],
        Word::PolygonVertexIndex => seq![0x50u8, 0x6fu8, 0x6cu8, 0x79u8, 0x67u8, 0x6fu8, 0x6eu8, 0x56u8, 0x65u8, 0x72u8, 0x74u8, 0x65u8, 0x78u8, 0x49u8, 0x6eu8, 0x64u8, 0x65u8, 0x78u8],
        Word::Pose => seq![0x50u8, 0x6fu8, 0x73u8, 0x65u8],
        Word::PoseNode => seq![0x50u8, 0x6fu8, 0x73u8, 0x65u8, 0x4eu8, 0x6fu8, 0x64u8, 0x65u8],
        Word::References => seq![0x52u8, 0x65u8, 0x66u8, 0x65u8, 0x72u8, 0x65u8, 0x6eu8, 0x63u8, 0x65u8, 0x73u8],
        Word::Relations => seq![0x52u8, 0x65u8, 0x6cu8, 0x61u8, 0x74u8, 0x69u8, 0x6fu8, 0x6eu8, 0x73u8],
        Word::SceneGenericPersistence => seq![0x53u8, 0x63u8, 0x65u8, 0x6eu8, 0x65u8, 0x47u8, 0x65u8, 0x6eu8, 0x65u8, 0x72u8, 0x69u8, 0x63u8, 0x50u8, 0x65u8, 0x72u8, 0x73u8, 0x69u8, 0x73u8, 0x74u8, 0x65u8, 0x6eu8, 0x63u8, 0x65u8],
        Word::SceneInfo => seq![0x53u8, 0x63u8, 0x65u8, 0x6eu8, 0x65u8, 0x49u8, 0x6eu8, 0x66u8, 0x6fu8],
        Word::SelectionNode => seq![0x53u8, 0x65u8, 0x6cu8, 0x65u8, 0x63u8, 0x74u8, 0x69u8, 0x6fu8, 0x6eu8, 0x4eu8, 0x6fu8, 0x64u8, 0x65u8],
        Word::Shape => seq![0x53u8, 0x68u8, 0x61u8, 0x70u8, 0x65u8],
        Word::Smoothing => seq![0x53u8, 0x6du8, 0x6fu8, 0x6fu8, 0x74u8, 0x68u8, 0x69u8, 0x6eu8, 0x67u8],
        Word::Switcher => seq![0x53u8, 0x77u8, 0x69u8, 0x74u8, 0x63u8, 0x68u8, 0x65u8, 0x72u8],
        Word::Take => seq![0x54u8, 0x61u8, 0x6bu8, 0x65u8],
        Word::Takes => seq![0x54u8, 0x61u8, 0x6bu8, 0x65u8, 0x73u8],
        Word::Tangents => seq![0x54u8, 0x61u8, 0x6eu8, 0x67u8, 0x65u8, 0x6eu8, 0x74u8, 0x73u8],
        Word::TangentsIndex => seq![0x54u8, 0x61u8, 0x6eu8, 0x67u8, 0x65u8, 0x6eu8, 0x74u8, 0x73u8, 0x49u8, 0x6eu8, 0x64u8, 0x65u8, 0x78u8],
        Word::TangentsW => seq![0x54u8, 0x61u8, 0x6eu8, 0x67u8, 0x65u8, 0x6eu8, 0x74u8, 0x73u8, 0x57u8],
        Word::Texture => seq![0x54u8, 0x65u8, 0x78u8, 0x74u8, 0x75u8, 0x72u8, 0x65u8],
        Word::TextureId => seq![0x54u8, 0x65u8, 0x78u8, 0x74u8, 0x75u8, 0x72u8, 0x65u8, 0x49u8, 0x64u8],
        Word::TextureUV => seq![0x54u8, 0x65u8, 0x78u8, 0x74u8, 0x75u8, 0x72u8, 0x65u8, 0x55u8, 0x56u8],
        Word::TextureUVVerticeIndex => seq![0x54u8, 0x65u8, 0x78u8, 0x74u8, 0x75u8, 0x72u8, 0x65u8, 0x55u8, 0x56u8, 0x56u8, 0x65u8, 0x72u8, 0x74u8, 0x69u8, 0x63u8, 0x65u8, 0x49u8, 0x6eu8, 0x64u8, 0x65u8, 0x78u8],
        Word::Thumbnail => seq![0x54u8, 0x68u8, 0x75u8, 0x6du8, 0x62u8, 0x6eu8, 0x61u8, 0x69u8, 0x6cu8],
        Word::Transform => seq![0x54u8, 0x72u8, 0x61u8, 0x6eu8, 0x73u8, 0x66u8, 0x6fu8, 0x72u8, 0x6du8],
        Word::TransformAssociateModel => seq![0x54u8, 0x72u8, 0x61u8, 0x6eu8, 0x73u8, 0x66u8, 0x6fu8, 0x72u8, 0x6du8, 0x41u8, 0x73u8, 0x73u8, 0x6fu8, 0x63u8, 0x69u8, 0x61u8, 0x74u8, 0x65u8, 0x4du8, 0x6fu8, 0x64u8, 0x65u8, 0x6cu8],
        Word::TransformLink => seq![0x54u8, 0x72u8, 0x61u8, 0x6eu8, 0x73u8, 0x66u8, 0x6fu8, 0x72u8, 0x6du8, 0x4cu8, 0x69u8, 0x6eu8, 0x6bu8],
        Word::UV => seq![0x55u8, 0x56u8],
        Word::UVIndex => seq![0x55u8, 0x56u8, 0x49u8, 0x6eu8, 0x64u8, 0x65u8, 0x78u8],
        Word::VertexCrease => seq![0x56u8, 0x65u8, 0x72u8, 0x74u8, 0x65u8, 0x78u8, 0x43u8, 0x72u8, 0x65u8, 0x61u8, 0x73u8, 0x65u8],
        Word::VertexCreaseIndex => seq![0x56u8, 0x65u8, 0x72u8, 0x74u8, 0x65u8, 0x78u8, 0x43u8, 0x72u8, 0x65u8, 0x61u8, 0x73u8, 0x65u8, 0x49u8, 0x6eu8, 0x64u8, 0x65u8, 0x78u8],
        Word::VertexIndexArray => seq![0x56u8, 0x65u8, 0x72u8, 0x74u8, 0x65u8, 0x78u8, 0x49u8, 0x6eu8, 0x64u8, 0x65u8, 0x78u8, 0x41u8, 0x72u8, 0x72u8, 0x61u8, 0x79u8],
        Word::Vertices => seq![0x56u8, 0x65u8, 0x72u8, 0x74u8, 0x69u8, 0x63u8, 0x65u8, 0x73u8],
        Word::Video => seq![0x56u8, 0x69u8, 0x64u8, 0x65u8, 0x6fu8],
        Word::Visibility => seq![0x56u8, 0x69u8, 0x73u8, 0x69u8, 0x62u8, 0x69u8, 0x6cu8, 0x69u8, 0x74u8, 0x79u8],
        Word::Weights => seq![0x57u8, 0x65u8, 0x69u8, 0x67u8, 0x68u8, 0x74u8, 0x73u8],
        Word::FileId => seq![0x46u8, 0x69u8, 0x6cu8, 0x65u8, 0x49u8, 0x64u8],
        Word::NodeAttributeName => seq![0x4eu8, 0x6fu8, 0x64u8, 0x65u8, 0x41u8, 0x74u8, 0x74u8, 0x72u8, 0x69u8, 0x62u8, 0x75u8, 0x74u8, 0x65u8, 0x4eu8, 0x61u8, 0x6du8, 0x65u8],
        Word::Name => seq![0x4eu8, 0x61u8, 0x6du8, 0x65u8],
        Word::TextureName => seq![0x54u8, 0x65u8, 0x78u8, 0x74u8, 0x75u8, 0x72u8, 0x65u8, 0x4eu8, 0x61u8, 0x6du8, 0x65u8],
        Word::Node => seq![0x4eu8, 0x6fu8, 0x64u8, 0x65u8],
        Word::Member => seq![0x4du8, 0x65u8, 0x6du8, 0x62u8, 0x65u8, 0x72u8],
        Word::Material => seq![0x4du8, 0x61u8, 0x74u8, 0x65u8, 0x72u8, 0x69u8, 0x61u8, 0x6cu8],
        Word::CameraIndexName => seq![0x43u8, 0x61u8, 0x6du8, 0x65u8, 0x72u8, 0x61u8, 0x49u8, 0x6eu8, 0x64u8, 0x65u8, 0x78u8, 0x4eu8, 0x61u8, 0x6du8, 0x65u8],
        Word::Object => seq![0x4fu8, 0x62u8, 0x6au8, 0x65u8, 0x63u8, 0x74u8],
    }
}

/// The spelling of a word as bytes.
pub fn word_bytes(w: Word) -> (r: Vec<u8>)
    ensures
        r@ == spec_word(w),
{
    let r = match w {
        Word::Alphas => vec![0x41u8, 0x6cu8, 0x70u8, 0x68u8, 0x61u8, 0x73u8],
        Word::AnimationCurve => vec![0x41u8, 0x6eu8, 0x69u8, 0x6du8, 0x61u8, 0x74u8, 0x69u8, 0x6fu8, 0x6eu8, 0x43u8, 0x75u8, 0x72u8, 0x76u8, 0x65u8],
        Word::AssociateModel => vec![0x41u8, 0x73u8, 0x73u8, 0x6fu8, 0x63u8, 0x69u8, 0x61u8, 0x74u8, 0x65u8, 0x4du8, 0x6fu8, 0x64u8, 0x65u8, 0x6cu8],
        Word::Audio => vec![0x41u8, 0x75u8, 0x64u8, 0x69u8, 0x6fu8],
        Word::BinaryData => vec![0x42u8, 0x69u8, 0x6eu8, 0x61u8, 0x72u8, 0x79u8, 0x44u8, 0x61u8, 0x74u8, 0x61u8],
        Word::Binormals => vec![0x42u8, 0x69u8, 0x6eu8, 0x6fu8, 0x72u8, 0x6du8, 0x61u8, 0x6cu8, 0x73u8],
        Word::BinormalsIndex => vec![0x42u8, 0x69u8, 0x6eu8, 0x6fu8, 0x72u8, 0x6du8, 0x61u8, 0x6cu8, 0x73u8, 0x49u8, 0x6eu8, 0x64u8, 0x65u8, 0x78u8],
        Word::BinormalsW => vec![0x42u8, 0x69u8, 0x6eu8, 0x6fu8, 0x72u8, 0x6du8, 0x61u8, 0x6cu8, 0x73u8, 0x57u8],
        Word::BlendModes => vec![0x42u8, 0x6cu8, 0x65u8, 0x6eu8, 0x64u8, 0x4du8, 0x6fu8, 0x64u8, 0x65u8, 0x73u8],
        Word::BlendWeights => vec![0x42u8, 0x6cu8, 0x65u8, 0x6eu8, 0x64u8, 0x57u8, 0x65u8, 0x69u8, 0x67u8, 0x68u8, 0x74u8, 0x73u8],
        Word::Channel => vec![0x43u8, 0x68u8, 0x61u8, 0x6eu8, 0x6eu8, 0x65u8, 0x6cu8],
        Word::Children => vec![0x43u8, 0x68u8, 0x69u8, 0x6cu8, 0x64u8, 0x72u8, 0x65u8, 0x6eu8],
        Word::Collection => vec![0x43u8, 0x6fu8, 0x6cu8, 0x6cu8, 0x65u8, 0x63u8, 0x74u8, 0x69u8, 0x6fu8, 0x6eu8],
        Word::ColorIndex => vec![0x43u8, 0x6fu8, 0x6cu8, 0x6fu8, 0x72u8, 0x49u8, 0x6eu8, 0x64u8, 0x65u8, 0x78u8],
        Word::Colors => vec![0x43u8, 0x6fu8, 0x6cu8, 0x6fu8, 0x72u8, 0x73u8],
        Word::Connections => vec![0x43u8, 0x6fu8, 0x6eu8, 0x6eu8, 0x65u8, 0x63u8, 0x74u8, 0x69u8, 0x6fu8, 0x6eu8, 0x73u8],
        Word::Content => vec![0x43u8, 0x6fu8, 0x6eu8, 0x74u8, 0x65u8, 0x6eu8, 0x74u8],
        Word::Cropping => vec![0x43u8, 0x72u8, 0x6fu8, 0x70u8, 0x70u8, 0x69u8, 0x6eu8, 0x67u8],
        Word::Definitions => vec![0x44u8, 0x65u8, 0x66u8, 0x69u8, 0x6eu8, 0x69u8, 0x74u8, 0x69u8, 0x6fu8, 0x6eu8, 0x73u8],
        Word::Deformer => vec![0x44u8, 0x65u8, 0x66u8, 0x6fu8, 0x72u8, 0x6du8, 0x65u8, 0x72u8],
        Word::EdgeCrease => vec![0x45u8, 0x64u8, 0x67u8, 0x65u8, 0x43u8, 0x72u8, 0x65u8, 0x61u8, 0x73u8, 0x65u8],
        Word::EdgeIndexArray => vec![0x45u8, 0x64u8, 0x67u8, 0x65u8, 0x49u8, 0x6eu8, 0x64u8, 0x65u8, 0x78u8, 0x41u8, 0x72u8, 0x72u8, 0x61u8, 0x79u8],
        Word::Edges => vec![0x45u8, 0x64u8, 0x67u8, 0x65u8, 0x73u8],
        Word::FBXHeaderExtension => vec![0x46u8, 0x42u8, 0x58u8, 0x48u8, 0x65u8, 0x61u8, 0x64u8, 0x65u8, 0x72u8, 0x45u8, 0x78u8, 0x74u8, 0x65u8, 0x6eu8, 0x73u8, 0x69u8, 0x6fu8, 0x6eu8],
        Word::FBXVersion => vec![0x46u8, 0x42u8, 0x58u8, 0x56u8, 0x65u8, 0x72u8, 0x73u8, 0x69u8, 0x6fu8, 0x6eu8],
        Word::FullWeights => vec![0x46u8, 0x75u8, 0x6cu8, 0x6cu8, 0x57u8, 0x65u8, 0x69u8, 0x67u8, 0x68u8, 0x74u8, 0x73u8],
        Word::Geometry => vec![0x47u8, 0x65u8, 0x6fu8, 0x6du8, 0x65u8, 0x74u8, 0x72u8, 0x79u8],
        Word::GeometryUVInfo => vec![0x47u8, 0x65u8, 0x6fu8, 0x6du8, 0x65u8, 0x74u8, 0x72u8, 0x79u8, 0x55u8, 0x56u8, 0x49u8, 0x6eu8, 0x66u8, 0x6fu8],
        Word::Hole => vec![0x48u8, 0x6fu8, 0x6cu8, 0x65u8],
        Word::ImageData => vec![0x49u8, 0x6du8, 0x61u8, 0x67u8, 0x65u8, 0x44u8, 0x61u8, 0x74u8, 0x61u8],
        Word::Indexes => vec![0x49u8, 0x6eu8, 0x64u8, 0x65u8, 0x78u8, 0x65u8, 0x73u8],
        Word::Key => vec![0x4bu8, 0x65u8, 0x79u8],
        Word::KeyAttrDataFloat => vec![0x4bu8, 0x65u8, 0x79u8, 0x41u8, 0x74u8, 0x74u8, 0x72u8, 0x44u8, 0x61u8, 0x74u8, 0x61u8, 0x46u8, 0x6cu8, 0x6fu8, 0x61u8, 0x74u8],
        Word::KeyAttrFlags => vec![0x4bu8, 0x65u8, 0x79u8, 0x41u8, 0x74u8, 0x74u8, 0x72u8, 0x46u8, 0x6cu8, 0x61u8, 0x67u8, 0x73u8],
        Word::KeyAttrRefCount => vec![0x4bu8, 0x65u8, 0x79u8, 0x41u8, 0x74u8, 0x74u8, 0x72u8, 0x52u8, 0x65u8, 0x66u8, 0x43u8, 0x6fu8, 0x75u8, 0x6eu8, 0x74u8],
        Word::KeyTime => vec![0x4bu8, 0x65u8, 0x79u8, 0x54u8, 0x69u8, 0x6du8, 0x65u8],
        Word::KeyValueFloat => vec![0x4bu8, 0x65u8, 0x79u8, 0x56u8, 0x61u8, 0x6cu8, 0x75u8, 0x65u8, 0x46u8, 0x6cu8, 0x6fu8, 0x61u8, 0x74u8],
        Word::KnotVector => vec![0x4bu8, 0x6eu8, 0x6fu8, 0x74u8, 0x56u8, 0x65u8, 0x63u8, 0x74u8, 0x6fu8, 0x72u8],
        Word::KnotVectorU => vec![0x4bu8, 0x6eu8, 0x6fu8, 0x74u8, 0x56u8, 0x65u8, 0x63u8, 0x74u8, 0x6fu8, 0x72u8, 0x55u8],
        Word::KnotVectorV => vec![0x4bu8, 0x6eu8, 0x6fu8, 0x74u8, 0x56u8, 0x65u8, 0x63u8, 0x74u8, 0x6fu8, 0x72u8, 0x56u8],
        Word::LayerElement => vec![0x4cu8, 0x61u8, 0x79u8, 0x65u8, 0x72u8, 0x45u8, 0x6cu8, 0x65u8, 0x6du8, 0x65u8, 0x6eu8, 0x74u8],
        Word::LayerElementBinormal => vec![0x4cu8, 0x61u8, 0x79u8, 0x65u8, 0x72u8, 0x45u8, 0x6cu8, 0x65u8, 0x6du8, 0x65u8, 0x6eu8, 0x74u8, 0x42u8, 0x69u8, 0x6eu8, 0x6fu8, 0x72u8, 0x6du8, 0x61u8, 0x6cu8],
        Word::LayerElementColor => vec![0x4cu8, 0x61u8, 0x79u8, 0x65u8, 0x72u8, 0x45u8, 0x6cu8, 0x65u8, 0x6du8, 0x65u8, 0x6eu8, 0x74u8, 0x43u8, 0x6fu8, 0x6cu8, 0x6fu8, 0x72u8],
        Word::LayerElementEdgeCrease => vec![0x4cu8, 0x61u8, 0x79u8, 0x65u8, 0x72u8, 0x45u8, 0x6cu8, 0x65u8, 0x6du8, 0x65u8, 0x6eu8, 0x74u8, 0x45u8, 0x64u8, 0x67u8, 0x65u8, 0x43u8, 0x72u8, 0x65u8, 0x61u8, 0x73u8, 0x65u8],
        Word::LayerElementHole => vec![0x4cu8, 0x61u8, 0x79u8, 0x65u8, 0x72u8, 0x45u8, 0x6cu8, 0x65u8, 0x6du8, 0x65u8, 0x6eu8, 0x74u8, 0x48u8, 0x6fu8, 0x6cu8, 0x65u8],
        Word::LayerElementMaterial => vec![0x4cu8, 0x61u8, 0x79u8, 0x65u8, 0x72u8, 0x45u8, 0x6cu8, 0x65u8, 0x6du8, 0x65u8, 0x6eu8, 0x74u8, 0x4du8, 0x61u8, 0x74u8, 0x65u8, 0x72u8, 0x69u8, 0x61u8, 0x6cu8],
        Word::LayerElementNormal => vec![0x4cu8, 0x61u8, 0x79u8, 0x65u8, 0x72u8, 0x45u8, 0x6cu8, 0x65u8, 0x6du8, 0x65u8, 0x6eu8, 0x74u8, 0x4eu8, 0x6fu8, 0x72u8, 0x6du8, 0x61u8, 0x6cu8],
        Word::LayerElementPolygonGroup => vec![0x4cu8, 0x61u8, 0x79u8, 0x65u8, 0x72u8, 0x45u8, 0x6cu8, 0x65u8, 0x6du8, 0x65u8, 0x6eu8, 0x74u8, 0x50u8, 0x6fu8, 0x6cu8, 0x79u8, 0x67u8, 0x6fu8, 0x6eu8, 0x47u8, 0x72u8, 0x6fu8, 0x75u8, 0x70u8],
        Word::LayerElementSmoothing => vec![0x4cu8, 0x61u8, 0x79u8, 0x65u8, 0x72u8, 0x45u8, 0x6cu8, 0x65u8, 0x6du8, 0x65u8, 0x6eu8, 0x74u8, 0x53u8, 0x6du8, 0x6fu8, 0x6fu8, 0x74u8, 0x68u8, 0x69u8, 0x6eu8, 0x67u8],
        Word::LayerElementTangent => vec![0x4cu8, 0x61u8, 0x79u8, 0x65u8, 0x72u8, 0x45u8, 0x6cu8, 0x65u8, 0x6du8, 0x65u8, 0x6eu8, 0x74u8, 0x54u8, 0x61u8, 0x6eu8, 0x67u8, 0x65u8, 0x6eu8, 0x74u8],
        Word::LayerElementUV => vec![0x4cu8, 0x61u8, 0x79u8, 0x65u8, 0x72u8, 0x45u8, 0x6cu8, 0x65u8, 0x6du8, 0x65u8, 0x6eu8, 0x74u8, 0x55u8, 0x56u8],
        Word::LayerElementVertexCrease => vec![0x4cu8, 0x61u8, 0x79u8, 0x65u8, 0x72u8, 0x45u8, 0x6cu8, 0x65u8, 0x6du8, 0x65u8, 0x6eu8, 0x74u8, 0x56u8, 0x65u8, 0x72u8, 0x74u8, 0x65u8, 0x78u8, 0x43u8, 0x72u8, 0x65u8, 0x61u8, 0x73u8, 0x65u8],
        Word::LayerElementVisibility => vec![0x4cu8, 0x61u8, 0x79u8, 0x65u8, 0x72u8, 0x45u8, 0x6cu8, 0x65u8, 0x6du8, 0x65u8, 0x6eu8, 0x74u8, 0x56u8, 0x69u8, 0x73u8, 0x69u8, 0x62u8, 0x69u8, 0x6cu8, 0x69u8, 0x74u8, 0x79u8],
        Word::LayeredTexture => vec![0x4cu8, 0x61u8, 0x79u8, 0x65u8, 0x72u8, 0x65u8, 0x64u8, 0x54u8, 0x65u8, 0x78u8, 0x74u8, 0x75u8, 0x72u8, 0x65u8],
        Word::Link => vec![0x4cu8, 0x69u8, 0x6eu8, 0x6bu8],
        Word::Materials => vec![0x4du8, 0x61u8, 0x74u8, 0x65u8, 0x72u8, 0x69u8, 0x61u8, 0x6cu8, 0x73u8],
        Word::Matrix => vec![0x4du8, 0x61u8, 0x74u8, 0x72u8, 0x69u8, 0x78u8],
        Word::Media => vec![0x4du8, 0x65u8, 0x64u8, 0x69u8, 0x61u8],
        Word::Model => vec![0x4du8, 0x6fu8, 0x64u8, 0x65u8, 0x6cu8],
        Word::ModelUVScaling => vec![0x4du8, 0x6fu8, 0x64u8, 0x65u8, 0x6cu8, 0x55u8, 0x56u8, 0x53u8, 0x63u8, 0x61u8, 0x6cu8, 0x69u8, 0x6eu8, 0x67u8],
        Word::ModelUVTranslation => vec![0x4du8, 0x6fu8, 0x64u8, 0x65u8, 0x6cu8, 0x55u8, 0x56u8, 0x54u8, 0x72u8, 0x61u8, 0x6eu8, 0x73u8, 0x6cu8, 0x61u8, 0x74u8, 0x69u8, 0x6fu8, 0x6eu8],
        Word::NodeAttribute => vec![0x4eu8, 0x6fu8, 0x64u8, 0x65u8, 0x41u8, 0x74u8, 0x74u8, 0x72u8, 0x69u8, 0x62u8, 0x75u8, 0x74u8, 0x65u8],
        Word::Normals => vec![0x4eu8, 0x6fu8, 0x72u8, 0x6du8, 0x61u8, 0x6cu8, 0x73u8],
        Word::NormalsIndex => vec![0x4eu8, 0x6fu8, 0x72u8, 0x6du8, 0x61u8, 0x6cu8, 0x73u8, 0x49u8, 0x6eu8, 0x64u8, 0x65u8, 0x78u8],
        Word::NormalsW => vec![0x4eu8, 0x6fu8, 0x72u8, 0x6du8, 0x61u8, 0x6cu8, 0x73u8, 0x57u8],
        Word::Objects => vec![0x4fu8, 0x62u8, 0x6au8, 0x65u8, 0x63u8, 0x74u8, 0x73u8],
        Word::Points => vec![0x50u8, 0x6fu8, 0x69u8, 0x6eu8, 0x74u8, 0x73u8],
        Word::PointsIndex => vec![0x50u8, 0x6fu8, 0x69u8, 0x6eu8, 0x74u8, 0x73u8, 0x49u8, 0x6eu8, 0x64u8, 0x65u8, 0x78u8],
        Word::PolygonGroup => vec![0x50u8, 0x6fu8, 0x6cu8, 0x79u8, 0x67u8, 0x6fu8, 0x6eu8, 0x47u8, 0x72u8, 0x6fu8, 0x75u8, 0x70u8],
        Word::PolygonIndexArray => vec![0x50u8, 0x6fu8, 0x6cu8, 0x79u8, 0x67u8, 0x6fu8, 0x6eu8, 0x49u8, 0x6eu8, 0x64u8, 0x65u8, 0x78u8, 0x41u8, 0x72u8, 0x72u8, 0x61u8, 0x79u8],
        Word::PolygonVertexIndex => vec![0x50u8, 0x6fu8, 0x6cu8, 0x79u8, 0x67u8, 0x6fu8, 0x6eu8, 0x56u8, 0x65u8, 0x72u8, 0x74u8, 0x65u8, 0x78u8, 0x49u8, 0x6eu8, 0x64u8, 0x65u8, 0x78u8],
        Word::Pose => vec![0x50u8, 0x6fu8, 0x73u8, 0x65u8],
        Word::PoseNode => vec![0x50u8, 0x6fu8, 0x73u8, 0x65u8, 0x4eu8, 0x6fu8, 0x64u8, 0x65u8],
        Word::References => vec![0x52u8, 0x65u8, 0x66u8, 0x65u8, 0x72u8, 0x65u8, 0x6eu8, 0x63u8, 0x65u8, 0x73u8],
        Word::Relations => vec![0x52u8, 0x65u8, 0x6cu8, 0x61u8, 0x74u8, 0x69u8, 0x6fu8, 0x6eu8, 0x73u8],
        Word::SceneGenericPersistence => vec![0x53u8, 0x63u8, 0x65u8, 0x6eu8, 0x65u8, 0x47u8, 0x65u8, 0x6eu8, 0x65u8, 0x72u8, 0x69u8, 0x63u8, 0x50u8, 0x65u8, 0x72u8, 0x73u8, 0x69u8, 0x73u8, 0x74u8, 0x65u8, 0x6eu8, 0x63u8, 0x65u8],
        Word::SceneInfo => vec![0x53u8, 0x63u8, 0x65u8, 0x6eu8, 0x65u8, 0x49u8, 0x6eu8, 0x66u8, 0x6fu8],
        Word::SelectionNode => vec![0x53u8, 0x65u8, 0x6cu8, 0x65u8, 0x63u8, 0x74u8, 0x69u8, 0x6fu8, 0x6eu8, 0x4eu8, 0x6fu8, 0x64u8, 0x65u8],
        Word::Shape => vec![0x53u8, 0x68u8, 0x61u8, 0x70u8, 0x65u8],
        Word::Smoothing => vec![0x53u8, 0x6du8, 0x6fu8, 0x6fu8, 0x74u8, 0x68u8, 0x69u8, 0x6eu8, 0x67u8],
        Word::Switcher => vec![0x53u8, 0x77u8, 0x69u8, 0x74u8, 0x63u8, 0x68u8, 0x65u8, 0x72u8],
        Word::Take => vec![0x54u8, 0x61u8, 0x6bu8, 0x65u8],
        Word::Takes => vec![0x54u8, 0x61u8, 0x6bu8, 0x65u8, 0x73u8],
        Word::Tangents => vec![0x54u8, 0x61u8, 0x6eu8, 0x67u8, 0x65u8, 0x6eu8, 0x74u8, 0x73u8],
        Word::TangentsIndex => vec![0x54u8, 0x61u8, 0x6eu8, 0x67u8, 0x65u8, 0x6eu8, 0x74u8, 0x73u8, 0x49u8, 0x6eu8, 0x64u8, 0x65u8, 0x78u8],
        Word::TangentsW => vec![0x54u8, 0x61u8, 0x6eu8, 0x67u8, 0x65u8, 0x6eu8, 0x74u8, 0x73u8, 0x57u8],
        Word::Texture => vec![0x54u8, 0x65u8, 0x78u8, 0x74u8, 0x75u8, 0x72u8, 0x65u8],
        Word::TextureId => vec![0x54u8, 0x65u8, 0x78u8, 0x74u8, 0x75u8, 0x72u8, 0x65u8, 0x49u8, 0x64u8],
        Word::TextureUV => vec![0x54u8, 0x65u8, 0x78u8, 0x74u8, 0x75u8, 0x72u8, 0x65u8, 0x55u8, 0x56u8],
        Word::TextureUVVerticeIndex => vec![0x54u8, 0x65u8, 0x78u8, 0x74u8, 0x75u8, 0x72u8, 0x65u8, 0x55u8, 0x56u8, 0x56u8, 0x65u8, 0x72u8, 0x74u8, 0x69u8, 0x63u8, 0x65u8, 0x49u8, 0x6eu8, 0x64u8, 0x65u8, 0x78u8],
        Word::Thumbnail => vec![0x54u8, 0x68u8, 0x75u8, 0x6du8, 0x62u8, 0x6eu8, 0x61u8, 0x69u8, 0x6cu8],
        Word::Transform => vec![0x54u8, 0x72u8, 0x61u8, 0x6eu8, 0x73u8, 0x66u8, 0x6fu8, 0x72u8, 0x6du8],
        Word::TransformAssociateModel => vec![0x54u8, 0x72u8, 0x61u8, 0x6eu8, 0x73u8, 0x66u8, 0x6fu8, 0x72u8, 0x6du8, 0x41u8, 0x73u8, 0x73u8, 0x6fu8, 0x63u8, 0x69u8, 0x61u8, 0x74u8, 0x65u8, 0x4du8, 0x6fu8, 0x64u8, 0x65u8, 0x6cu8],
        Word::TransformLink => vec![0x54u8, 0x72u8, 0x61u8, 0x6eu8, 0x73u8, 0x66u8, 0x6fu8, 0x72u8, 0x6du8, 0x4cu8, 0x69u8, 0x6eu8, 0x6bu8],
        Word::UV => vec![0x55u8, 0x56u8],
        Word::UVIndex => vec![0x55u8, 0x56u8, 0x49u8, 0x6eu8, 0x64u8, 0x65u8, 0x78u8],
        Word::VertexCrease => vec![0x56u8, 0x65u8, 0x72u8, 0x74u8, 0x65u8, 0x78u8, 0x43u8, 0x72u8, 0x65u8, 0x61u8, 0x73u8, 0x65u8],
        Word::VertexCreaseIndex => vec![0x56u8, 0x65u8, 0x72u8, 0x74u8, 0x65u8, 0x78u8, 0x43u8, 0x72u8, 0x65u8, 0x61u8, 0x73u8, 0x65u8, 0x49u8, 0x6eu8, 0x64u8, 0x65u8, 0x78u8],
        Word::VertexIndexArray => vec![0x56u8, 0x65u8, 0x72u8, 0x74u8, 0x65u8, 0x78u8, 0x49u8, 0x6eu8, 0x64u8, 0x65u8, 0x78u8, 0x41u8, 0x72u8, 0x72u8, 0x61u8, 0x79u8],
        Word::Vertices => vec![0x56u8, 0x65u8, 0x72u8, 0x74u8, 0x69u8, 0x63u8, 0x65u8, 0x73u8],
        Word::Video => vec![0x56u8, 0x69u8, 0x64u8, 0x65u8, 0x6fu8],
        Word::Visibility => vec![0x56u8, 0x69u8, 0x73u8, 0x69u8, 0x62u8, 0x69u8, 0x6cu8, 0x69u8, 0x74u8, 0x79u8],
        Word::Weights => vec![0x57u8, 0x65u8, 0x69u8, 0x67u8, 0x68u8, 0x74u8, 0x73u8],
        Word::FileId => vec![0x46u8, 0x69u8, 0x6cu8, 0x65u8, 0x49u8, 0x64u8],
        Word::NodeAttributeName => vec![0x4eu8, 0x6fu8, 0x64u8, 0x65u8, 0x41u8, 0x74u8, 0x74u8, 0x72u8, 0x69u8, 0x62u8, 0x75u8, 0x74u8, 0x65u8, 0x4eu8, 0x61u8, 0x6du8, 0x65u8],
        Word::Name => vec![0x4eu8, 0x61u8, 0x6du8, 0x65u8],
        Word::TextureName => vec![0x54u8, 0x65u8, 0x78u8, 0x74u8, 0x75u8, 0x72u8, 0x65u8, 0x4eu8, 0x61u8, 0x6du8, 0x65u8],
        Word::Node => vec![0x4eu8, 0x6fu8, 0x64u8, 0x65u8],
        Word::Member => vec![0x4du8, 0x65u8, 0x6du8, 0x62u8, 0x65u8, 0x72u8],
        Word::Material => vec![0x4du8, 0x61u8, 0x74u8, 0x65u8, 0x72u8, 0x69u8, 0x61u8, 0x6cu8],
        Word::CameraIndexName => vec![0x43u8, 0x61u8, 0x6du8, 0x65u8, 0x72u8, 0x61u8, 0x49u8, 0x6eu8, 0x64u8, 0x65u8, 0x78u8, 0x4eu8, 0x61u8, 0x6du8, 0x65u8],
        Word::Object => vec![0x4fu8, 0x62u8, 0x6au8, 0x65u8, 0x63u8, 0x74u8],
    };
    proof {
        assert(r@ =~= spec_word(w));
    }
    r
}

/// Whether `name` is spelled `w`.
pub fn name_is(name: &[u8], w: Word) -> (r: bool)
    ensures
        r == (name@ == spec_word(w)),
{
    let word = word_bytes(w);
    bytes_equal(name, word.as_slice())
}

/// Whether `name` begins with `prefix`.
pub open spec fn spec_starts_with(name: Seq<u8>, prefix: Seq<u8>) -> bool {
    prefix.len() <= name.len() && name.subrange(0, prefix.len() as int) == prefix
}

/// Whether `name` begins with the spelling of `w`.
pub fn name_starts_with(name: &[u8], w: Word) -> (r: bool)
    ensures
        r == spec_starts_with(name@, spec_word(w)),
{
    let word = word_bytes(w);
    if word.len() > name.len() {
        return false;
    }
    let mut i: usize = 0;
    while i < word.len()
        invariant
            word@ == spec_word(w),
            i <= word.len() <= name.len(),
            forall|k: int| 0 <= k < i ==> name@[k] == word@[k],
        decreases word.len() - i,
    {
        if name[i] != word[i] {
            let ghost pre = name@.subrange(0, word.len() as int);
            assert(pre[i as int] == name@[i as int]);
            assert(pre[i as int] != word@[i as int]);
            assert(pre != word@);
            return false;
        }
        i = i + 1;
    }
    assert(name@.subrange(0, word.len() as int) =~= word@);
    true
}

/// The state of a node named `name` inside a node of state `parent`; names
/// no rule knows lead to `Unknown`. Names are compared by spelling (the
/// parser interns them, so equal spellings are one name).
pub open spec fn spec_update_parse_state(parent: ParseState, name: Seq<u8>) -> ParseState {
    match parent {
        ParseState::Root => {
            if name == spec_word(Word::FBXHeaderExtension) {
                ParseState::FbxHeaderExtension
            } else if name == spec_word(Word::Definitions) {
                ParseState::Definitions
            } else if name == spec_word(Word::Objects) {
                ParseState::Objects
            } else if name == spec_word(Word::Connections) {
                ParseState::Connections
            } else if name == spec_word(Word::Takes) {
                ParseState::Takes
            } else if name == spec_word(Word::Model) {
                ParseState::LegacyModel
            } else if name == spec_word(Word::References) {
                ParseState::References
            } else if name == spec_word(Word::Relations) {
                ParseState::Relations
            } else if name == spec_word(Word::Media) {
                ParseState::LegacyMedia
            } else if name == spec_word(Word::Switcher) {
                ParseState::LegacySwitcher
            } else if name == spec_word(Word::SceneGenericPersistence) {
                ParseState::LegacyScenePersistence
            } else {
                ParseState::Unknown
            }
        },
        ParseState::FbxHeaderExtension => {
            if name == spec_word(Word::FBXVersion) {
                ParseState::FbxVersion
            } else if name == spec_word(Word::SceneInfo) {
                ParseState::SceneInfo
            } else {
                ParseState::Unknown
            }
        },
        ParseState::SceneInfo => {
            if name == spec_word(Word::Thumbnail) {
                ParseState::Thumbnail
            } else {
                ParseState::Unknown
            }
        },
        ParseState::Objects => {
            if name == spec_word(Word::Model) {
                ParseState::Model
            } else if name == spec_word(Word::Geometry) {
                ParseState::Geometry
            } else if name == spec_word(Word::NodeAttribute) {
                ParseState::NodeAttribute
            } else if name == spec_word(Word::AnimationCurve) {
                ParseState::AnimationCurve
            } else if name == spec_word(Word::Deformer) {
                ParseState::Deformer
            } else if name == spec_word(Word::Pose) {
                ParseState::Pose
            } else if name == spec_word(Word::Texture) {
                ParseState::Texture
            } else if name == spec_word(Word::Video) {
                ParseState::Video
            } else if name == spec_word(Word::LayeredTexture) {
                ParseState::LayeredTexture
            } else if name == spec_word(Word::SelectionNode) {
                ParseState::SelectionNode
            } else if name == spec_word(Word::Collection) {
                ParseState::Collection
            } else if name == spec_word(Word::Audio) {
                ParseState::Audio
            } else {
                ParseState::UnknownObject
            }
        },
        ParseState::Model | ParseState::Geometry => {
            if name == spec_word(Word::LayerElementNormal) {
                ParseState::LayerElementNormal
            } else if name == spec_word(Word::LayerElementBinormal) {
                ParseState::LayerElementBinormal
            } else if name == spec_word(Word::LayerElementTangent) {
                ParseState::LayerElementTangent
            } else if name == spec_word(Word::LayerElementUV) {
                ParseState::LayerElementUv
            } else if name == spec_word(Word::LayerElementColor) {
                ParseState::LayerElementColor
            } else if name == spec_word(Word::LayerElementVertexCrease) {
                ParseState::LayerElementVertexCrease
            } else if name == spec_word(Word::LayerElementEdgeCrease) {
                ParseState::LayerElementEdgeCrease
            } else if name == spec_word(Word::LayerElementSmoothing) {
                ParseState::LayerElementSmoothing
            } else if name == spec_word(Word::LayerElementVisibility) {
                ParseState::LayerElementVisibility
            } else if name == spec_word(Word::LayerElementPolygonGroup) {
                ParseState::LayerElementPolygonGroup
            } else if name == spec_word(Word::LayerElementHole) {
                ParseState::LayerElementHole
            } else if name == spec_word(Word::LayerElementMaterial) {
                ParseState::LayerElementMaterial
            } else if spec_starts_with(name, spec_word(Word::LayerElement)) {
                ParseState::LayerElementOther
            } else if name == spec_word(Word::Shape) {
                ParseState::Shape
            } else {
                ParseState::Unknown
            }
        },
        ParseState::Deformer => {
            if name == spec_word(Word::AssociateModel) {
                ParseState::AssociateModel
            } else {
                ParseState::Unknown
            }
        },
        ParseState::LegacyMedia => {
            if name == spec_word(Word::Video) {
                ParseState::LegacyVideo
            } else {
                ParseState::Unknown
            }
        },
        ParseState::LegacyVideo => {
            ParseState::Video
        },
        ParseState::LegacyModel => {
            if name == spec_word(Word::GeometryUVInfo) {
                ParseState::GeometryUvInfo
            } else if name == spec_word(Word::Link) {
                ParseState::LegacyLink
            } else if name == spec_word(Word::Channel) {
                ParseState::Channel
            } else if name == spec_word(Word::Shape) {
                ParseState::Shape
            } else {
                ParseState::Unknown
            }
        },
        ParseState::Pose => {
            if name == spec_word(Word::PoseNode) {
                ParseState::PoseNode
            } else {
                ParseState::Unknown
            }
        },
        ParseState::Takes => {
            if name == spec_word(Word::Take) {
                ParseState::Take
            } else {
                ParseState::Unknown
            }
        },
        ParseState::Take => {
            ParseState::TakeObject
        },
        ParseState::TakeObject => {
            if name == spec_word(Word::Channel) {
                ParseState::Channel
            } else {
                ParseState::Unknown
            }
        },
        ParseState::Channel => {
            if name == spec_word(Word::Channel) {
                ParseState::Channel
            } else {
                ParseState::Unknown
            }
        },
        ParseState::References => {
            ParseState::Reference
        },
        _ => ParseState::Unknown,
    }
}

/// The state of a node named `name` inside a node of state `parent` (see
/// `spec_update_parse_state`).
pub fn update_parse_state(parent: ParseState, name: &[u8]) -> (r: ParseState)
    ensures
        r == spec_update_parse_state(parent, name@),
{
    match parent {
        ParseState::Root => {
            if name_is(name, Word::FBXHeaderExtension) {
                return ParseState::FbxHeaderExtension;
            }
            if name_is(name, Word::Definitions) {
                return ParseState::Definitions;
            }
            if name_is(name, Word::Objects) {
                return ParseState::Objects;
            }
            if name_is(name, Word::Connections) {
                return ParseState::Connections;
            }
            if name_is(name, Word::Takes) {
                return ParseState::Takes;
            }
            if name_is(name, Word::Model) {
                return ParseState::LegacyModel;
            }
            if name_is(name, Word::References) {
                return ParseState::References;
            }
            if name_is(name, Word::Relations) {
                return ParseState::Relations;
            }
            if name_is(name, Word::Media) {
                return ParseState::LegacyMedia;
            }
            if name_is(name, Word::Switcher) {
                return ParseState::LegacySwitcher;
            }
            if name_is(name, Word::SceneGenericPersistence) {
                return ParseState::LegacyScenePersistence;
            }
        },
        ParseState::FbxHeaderExtension => {
            if name_is(name, Word::FBXVersion) {
                return ParseState::FbxVersion;
            }
            if name_is(name, Word::SceneInfo) {
                return ParseState::SceneInfo;
            }
        },
        ParseState::SceneInfo => {
            if name_is(name, Word::Thumbnail) {
                return ParseState::Thumbnail;
            }
        },
        ParseState::Objects => {
            if name_is(name, Word::Model) {
                return ParseState::Model;
            }
            if name_is(name, Word::Geometry) {
                return ParseState::Geometry;
            }
            if name_is(name, Word::NodeAttribute) {
                return ParseState::NodeAttribute;
            }
            if name_is(name, Word::AnimationCurve) {
                return ParseState::AnimationCurve;
            }
            if name_is(name, Word::Deformer) {
                return ParseState::Deformer;
            }
            if name_is(name, Word::Pose) {
                return ParseState::Pose;
            }
            if name_is(name, Word::Texture) {
                return ParseState::Texture;
            }
            if name_is(name, Word::Video) {
                return ParseState::Video;
            }
            if name_is(name, Word::LayeredTexture) {
                return ParseState::LayeredTexture;
            }
            if name_is(name, Word::SelectionNode) {
                return ParseState::SelectionNode;
            }
            if name_is(name, Word::Collection) {
                return ParseState::Collection;
            }
            if name_is(name, Word::Audio) {
                return ParseState::Audio;
            }
            return ParseState::UnknownObject;
        },
        ParseState::Model | ParseState::Geometry => {
            if name_is(name, Word::LayerElementNormal) {
                return ParseState::LayerElementNormal;
            }
            if name_is(name, Word::LayerElementBinormal) {
                return ParseState::LayerElementBinormal;
            }
            if name_is(name, Word::LayerElementTangent) {
                return ParseState::LayerElementTangent;
            }
            if name_is(name, Word::LayerElementUV) {
                return ParseState::LayerElementUv;
            }
            if name_is(name, Word::LayerElementColor) {
                return ParseState::LayerElementColor;
            }
            if name_is(name, Word::LayerElementVertexCrease) {
                return ParseState::LayerElementVertexCrease;
            }
            if name_is(name, Word::LayerElementEdgeCrease) {
                return ParseState::LayerElementEdgeCrease;
            }
            if name_is(name, Word::LayerElementSmoothing) {
                return ParseState::LayerElementSmoothing;
            }
            if name_is(name, Word::LayerElementVisibility) {
                return ParseState::LayerElementVisibility;
            }
            if name_is(name, Word::LayerElementPolygonGroup) {
                return ParseState::LayerElementPolygonGroup;
            }
            if name_is(name, Word::LayerElementHole) {
                return ParseState::LayerElementHole;
            }
            if name_is(name, Word::LayerElementMaterial) {
                return ParseState::LayerElementMaterial;
            }
            if name_starts_with(name, Word::LayerElement) {
                return ParseState::LayerElementOther;
            }
            if name_is(name, Word::Shape) {
                return ParseState::Shape;
            }
        },
        ParseState::Deformer => {
            if name_is(name, Word::AssociateModel) {
                return ParseState::AssociateModel;
            }
        },
        ParseState::LegacyMedia => {
            if name_is(name, Word::Video) {
                return ParseState::LegacyVideo;
            }
        },
        ParseState::LegacyVideo => {
            return ParseState::Video;
        },
        ParseState::LegacyModel => {
            if name_is(name, Word::GeometryUVInfo) {
                return ParseState::GeometryUvInfo;
            }
            if name_is(name, Word::Link) {
                return ParseState::LegacyLink;
            }
            if name_is(name, Word::Channel) {
                return ParseState::Channel;
            }
            if name_is(name, Word::Shape) {
                return ParseState::Shape;
            }
        },
        ParseState::Pose => {
            if name_is(name, Word::PoseNode) {
                return ParseState::PoseNode;
            }
        },
        ParseState::Takes => {
            if name_is(name, Word::Take) {
                return ParseState::Take;
            }
        },
        ParseState::Take => {
            return ParseState::TakeObject;
        },
        ParseState::TakeObject => {
            if name_is(name, Word::Channel) {
                return ParseState::Channel;
            }
        },
        ParseState::Channel => {
            if name_is(name, Word::Channel) {
                return ParseState::Channel;
            }
        },
        ParseState::References => {
            return ParseState::Reference;
        },
        _ => {},
    }
    ParseState::Unknown
}

/// The array is allocated from the result buffer.
pub const ARRAY_FLAG_RESULT: u8 = 0x1;

/// The array is allocated from the long-term temporary buffer.
pub const ARRAY_FLAG_TMP_BUF: u8 = 0x2;

/// Four zero elements precede the array, guarding `-1` indices.
pub const ARRAY_FLAG_PAD_BEGIN: u8 = 0x4;

/// The array is parsed as bit-accurate 32-bit floats.
pub const ARRAY_FLAG_ACCURATE_F32: u8 = 0x8;

/// How the values of an array node are read: the element type code (`-`
/// skips the array) and the `ARRAY_FLAG_*` bits.
#[derive(Clone, Copy, Debug, PartialEq, Eq, Structural)]
pub struct ArrayInfo {
    pub type_code: u8,
    pub flags: u8,
}

/// What the array rules depend on: the load options, whether the file is
/// ASCII and its version, whether vertex `W` components are kept, and
/// whether full blend weights are wanted.
#[derive(Clone, Copy, Debug, PartialEq, Eq, Structural)]
pub struct ArrayNodeOpts {
    pub retain_dom: bool,
    pub ignore_geometry: bool,
    pub ignore_animation: bool,
    pub ignore_embedded: bool,
    pub from_ascii: bool,
    pub version: u32,
    pub retain_vertex_w: bool,
    pub blender_full_weights: bool,
}

/// The array a node named `name` inside a node of state `parent` holds, if
/// any: geometry arrays are skipped with geometry ignored, animation and
/// embedded content likewise; geometry values and indices go to the
/// result (values padded for `-1` indices); keyframe attribute data is
/// integers in ASCII files from version 7200 on and exact floats before.
/// Flags not set outright start from `ARRAY_FLAG_RESULT` when the DOM is
/// kept.
pub open spec fn spec_array_info(o: ArrayNodeOpts, parent: ParseState, name: Seq<u8>) -> Option<ArrayInfo> {
    let seed = if o.retain_dom { ARRAY_FLAG_RESULT } else { 0u8 };
    match parent {
        ParseState::Thumbnail => {
            if name == spec_word(Word::ImageData) {
                Some(ArrayInfo { type_code: 0x63u8, flags: ARRAY_FLAG_RESULT })
            } else {
                None
            }
        },
        ParseState::Geometry | ParseState::Model => {
            if name == spec_word(Word::Vertices) {
                Some(ArrayInfo { type_code: if o.ignore_geometry { 0x2du8 } else { 0x72u8 }, flags: ARRAY_FLAG_RESULT | ARRAY_FLAG_PAD_BEGIN })
            } else if name == spec_word(Word::PolygonVertexIndex) {
                Some(ArrayInfo { type_code: if o.ignore_geometry { 0x2du8 } else { 0x69u8 }, flags: ARRAY_FLAG_RESULT })
            } else if name == spec_word(Word::Edges) {
                Some(ArrayInfo { type_code: if o.ignore_geometry { 0x2du8 } else { 0x69u8 }, flags: seed })
            } else if name == spec_word(Word::Indexes) {
                Some(ArrayInfo { type_code: if o.ignore_geometry { 0x2du8 } else { 0x69u8 }, flags: ARRAY_FLAG_RESULT })
            } else if name == spec_word(Word::Points) {
                Some(ArrayInfo { type_code: if o.ignore_geometry { 0x2du8 } else { 0x72u8 }, flags: ARRAY_FLAG_RESULT })
            } else if name == spec_word(Word::KnotVector) {
                Some(ArrayInfo { type_code: if o.ignore_geometry { 0x2du8 } else { 0x72u8 }, flags: ARRAY_FLAG_RESULT })
            } else if name == spec_word(Word::KnotVectorU) {
                Some(ArrayInfo { type_code: if o.ignore_geometry { 0x2du8 } else { 0x72u8 }, flags: ARRAY_FLAG_RESULT })
            } else if name == spec_word(Word::KnotVectorV) {
                Some(ArrayInfo { type_code: if o.ignore_geometry { 0x2du8 } else { 0x72u8 }, flags: ARRAY_FLAG_RESULT })
            } else if name == spec_word(Word::PointsIndex) {
                Some(ArrayInfo { type_code: if o.ignore_geometry { 0x2du8 } else { 0x69u8 }, flags: ARRAY_FLAG_RESULT })
            } else if name == spec_word(Word::Normals) {
                Some(ArrayInfo { type_code: if o.ignore_geometry { 0x2du8 } else { 0x72u8 }, flags: ARRAY_FLAG_RESULT | ARRAY_FLAG_PAD_BEGIN })
            } else {
                None
            }
        },
        ParseState::LegacyModel => {
            if name == spec_word(Word::Vertices) {
                Some(ArrayInfo { type_code: if o.ignore_geometry { 0x2du8 } else { 0x72u8 }, flags: ARRAY_FLAG_RESULT | ARRAY_FLAG_PAD_BEGIN })
            } else if name == spec_word(Word::Normals) {
                Some(ArrayInfo { type_code: if o.ignore_geometry { 0x2du8 } else { 0x72u8 }, flags: ARRAY_FLAG_RESULT | ARRAY_FLAG_PAD_BEGIN })
            } else if name == spec_word(Word::Materials) {
                Some(ArrayInfo { type_code: if o.ignore_geometry { 0x2du8 } else { 0x69u8 }, flags: ARRAY_FLAG_RESULT })
            } else if name == spec_word(Word::PolygonVertexIndex) {
                Some(ArrayInfo { type_code: if o.ignore_geometry { 0x2du8 } else { 0x69u8 }, flags: ARRAY_FLAG_RESULT })
            } else if name == spec_word(Word::Children) {
                Some(ArrayInfo { type_code: 0x73u8, flags: seed })
            } else {
                None
            }
        },
        ParseState::AnimationCurve => {
            if name == spec_word(Word::KeyTime) {
                Some(ArrayInfo { type_code: if o.ignore_animation { 0x2du8 } else { 0x6cu8 }, flags: seed })
            } else if name == spec_word(Word::KeyValueFloat) {
                Some(ArrayInfo { type_code: if o.ignore_animation { 0x2du8 } else { 0x72u8 }, flags: seed })
            } else if name == spec_word(Word::KeyAttrFlags) {
                Some(ArrayInfo { type_code: if o.ignore_animation { 0x2du8 } else { 0x69u8 }, flags: seed })
            } else if name == spec_word(Word::KeyAttrDataFloat) {
                Some(ArrayInfo { type_code: if o.ignore_animation { 0x2du8 } else if o.from_ascii && o.version >= 7200 { 0x69u8 } else { 0x66u8 }, flags: if o.from_ascii && o.version < 7200 { seed | ARRAY_FLAG_ACCURATE_F32 } else { seed } })
            } else if name == spec_word(Word::KeyAttrRefCount) {
                Some(ArrayInfo { type_code: if o.ignore_animation { 0x2du8 } else { 0x69u8 }, flags: seed })
            } else {
                None
            }
        },
        ParseState::Texture => {
            if name == spec_word(Word::ModelUVTranslation) {
                Some(ArrayInfo { type_code: if o.retain_dom { 0x72u8 } else { 0x2du8 }, flags: seed })
            } else if name == spec_word(Word::ModelUVScaling) {
                Some(ArrayInfo { type_code: if o.retain_dom { 0x72u8 } else { 0x2du8 }, flags: seed })
            } else if name == spec_word(Word::Cropping) {
                Some(ArrayInfo { type_code: if o.retain_dom { 0x72u8 } else { 0x2du8 }, flags: seed })
            } else {
                None
            }
        },
        ParseState::Video => {
            if name == spec_word(Word::Content) {
                Some(ArrayInfo { type_code: if o.ignore_embedded { 0x2du8 } else { 0x43u8 }, flags: seed })
            } else {
                None
            }
        },
        ParseState::LayeredTexture => {
            if name == spec_word(Word::BlendModes) {
                Some(ArrayInfo { type_code: 0x69u8, flags: seed | ARRAY_FLAG_TMP_BUF })
            } else if name == spec_word(Word::Alphas) {
                Some(ArrayInfo { type_code: 0x72u8, flags: seed | ARRAY_FLAG_TMP_BUF })
            } else {
                None
            }
        },
        ParseState::SelectionNode => {
            if name == spec_word(Word::VertexIndexArray) {
                Some(ArrayInfo { type_code: 0x69u8, flags: ARRAY_FLAG_RESULT })
            } else if name == spec_word(Word::EdgeIndexArray) {
                Some(ArrayInfo { type_code: 0x69u8, flags: ARRAY_FLAG_RESULT })
            } else if name == spec_word(Word::PolygonIndexArray) {
                Some(ArrayInfo { type_code: 0x69u8, flags: ARRAY_FLAG_RESULT })
            } else {
                None
            }
        },
        ParseState::LayerElementNormal => {
            if name == spec_word(Word::Normals) {
                Some(ArrayInfo { type_code: if o.ignore_geometry { 0x2du8 } else { 0x72u8 }, flags: ARRAY_FLAG_RESULT | ARRAY_FLAG_PAD_BEGIN })
            } else if name == spec_word(Word::NormalsIndex) {
                Some(ArrayInfo { type_code: if o.ignore_geometry { 0x2du8 } else { 0x69u8 }, flags: ARRAY_FLAG_RESULT })
            } else if name == spec_word(Word::NormalsW) {
                Some(ArrayInfo { type_code: if o.retain_vertex_w { 0x72u8 } else { 0x2du8 }, flags: ARRAY_FLAG_RESULT | ARRAY_FLAG_PAD_BEGIN })
            } else {
                None
            }
        },
        ParseState::LayerElementBinormal => {
            if name == spec_word(Word::Binormals) {
                Some(ArrayInfo { type_code: if o.ignore_geometry { 0x2du8 } else { 0x72u8 }, flags: ARRAY_FLAG_RESULT | ARRAY_FLAG_PAD_BEGIN })
            } else if name == spec_word(Word::BinormalsIndex) {
                Some(ArrayInfo { type_code: if o.ignore_geometry { 0x2du8 } else { 0x69u8 }, flags: ARRAY_FLAG_RESULT })
            } else if name == spec_word(Word::BinormalsW) {
                Some(ArrayInfo { type_code: if o.retain_vertex_w { 0x72u8 } else { 0x2du8 }, flags: ARRAY_FLAG_RESULT | ARRAY_FLAG_PAD_BEGIN })
            } else {
                None
            }
        },
        ParseState::LayerElementTangent => {
            if name == spec_word(Word::Tangents) {
                Some(ArrayInfo { type_code: if o.ignore_geometry { 0x2du8 } else { 0x72u8 }, flags: ARRAY_FLAG_RESULT | ARRAY_FLAG_PAD_BEGIN })
            } else if name == spec_word(Word::TangentsIndex) {
                Some(ArrayInfo { type_code: if o.ignore_geometry { 0x2du8 } else { 0x69u8 }, flags: ARRAY_FLAG_RESULT })
            } else if name == spec_word(Word::TangentsW) {
                Some(ArrayInfo { type_code: if o.retain_vertex_w { 0x72u8 } else { 0x2du8 }, flags: ARRAY_FLAG_RESULT | ARRAY_FLAG_PAD_BEGIN })
            } else {
                None
            }
        },
        ParseState::LayerElementUv => {
            if name == spec_word(Word::UV) {
                Some(ArrayInfo { type_code: if o.ignore_geometry { 0x2du8 } else { 0x72u8 }, flags: ARRAY_FLAG_RESULT | ARRAY_FLAG_PAD_BEGIN })
            } else if name == spec_word(Word::UVIndex) {
                Some(ArrayInfo { type_code: if o.ignore_geometry { 0x2du8 } else { 0x69u8 }, flags: ARRAY_FLAG_RESULT })
            } else {
                None
            }
        },
        ParseState::LayerElementColor => {
            if name == spec_word(Word::Colors) {
                Some(ArrayInfo { type_code: if o.ignore_geometry { 0x2du8 } else { 0x72u8 }, flags: ARRAY_FLAG_RESULT | ARRAY_FLAG_PAD_BEGIN })
            } else if name == spec_word(Word::ColorIndex) {
                Some(ArrayInfo { type_code: if o.ignore_geometry { 0x2du8 } else { 0x69u8 }, flags: ARRAY_FLAG_RESULT })
            } else {
                None
            }
        },
        ParseState::LayerElementVertexCrease => {
            if name == spec_word(Word::VertexCrease) {
                Some(ArrayInfo { type_code: if o.ignore_geometry { 0x2du8 } else { 0x72u8 }, flags: ARRAY_FLAG_RESULT | ARRAY_FLAG_PAD_BEGIN })
            } else if name == spec_word(Word::VertexCreaseIndex) {
                Some(ArrayInfo { type_code: if o.ignore_geometry { 0x2du8 } else { 0x69u8 }, flags: ARRAY_FLAG_RESULT })
            } else {
                None
            }
        },
        ParseState::LayerElementEdgeCrease => {
            if name == spec_word(Word::EdgeCrease) {
                Some(ArrayInfo { type_code: if o.ignore_geometry { 0x2du8 } else { 0x72u8 }, flags: ARRAY_FLAG_RESULT })
            } else {
                None
            }
        },
        ParseState::LayerElementSmoothing => {
            if name == spec_word(Word::Smoothing) {
                Some(ArrayInfo { type_code: if o.ignore_geometry { 0x2du8 } else { 0x62u8 }, flags: ARRAY_FLAG_RESULT })
            } else {
                None
            }
        },
        ParseState::LayerElementVisibility => {
            if name == spec_word(Word::Visibility) {
                Some(ArrayInfo { type_code: if o.ignore_geometry { 0x2du8 } else { 0x62u8 }, flags: ARRAY_FLAG_RESULT })
            } else {
                None
            }
        },
        ParseState::LayerElementPolygonGroup => {
            if name == spec_word(Word::PolygonGroup) {
                Some(ArrayInfo { type_code: if o.ignore_geometry { 0x2du8 } else { 0x69u8 }, flags: ARRAY_FLAG_RESULT })
            } else {
                None
            }
        },
        ParseState::LayerElementHole => {
            if name == spec_word(Word::Hole) {
                Some(ArrayInfo { type_code: if o.ignore_geometry { 0x2du8 } else { 0x62u8 }, flags: ARRAY_FLAG_RESULT })
            } else {
                None
            }
        },
        ParseState::LayerElementMaterial => {
            if name == spec_word(Word::Materials) {
                Some(ArrayInfo { type_code: if o.ignore_geometry { 0x2du8 } else { 0x69u8 }, flags: ARRAY_FLAG_RESULT })
            } else {
                None
            }
        },
        ParseState::LayerElementOther => {
            if name == spec_word(Word::TextureId) {
                Some(ArrayInfo { type_code: if o.ignore_geometry { 0x2du8 } else { 0x69u8 }, flags: seed | ARRAY_FLAG_TMP_BUF })
            } else if name == spec_word(Word::UV) {
                Some(ArrayInfo { type_code: if o.retain_dom { 0x72u8 } else { 0x2du8 }, flags: seed })
            } else if name == spec_word(Word::UVIndex) {
                Some(ArrayInfo { type_code: if o.retain_dom { 0x69u8 } else { 0x2du8 }, flags: seed })
            } else {
                None
            }
        },
        ParseState::GeometryUvInfo => {
            if name == spec_word(Word::TextureUV) {
                Some(ArrayInfo { type_code: if o.ignore_geometry { 0x2du8 } else { 0x72u8 }, flags: ARRAY_FLAG_RESULT | ARRAY_FLAG_PAD_BEGIN })
            } else if name == spec_word(Word::TextureUVVerticeIndex) {
                Some(ArrayInfo { type_code: if o.ignore_geometry { 0x2du8 } else { 0x69u8 }, flags: ARRAY_FLAG_RESULT | ARRAY_FLAG_PAD_BEGIN })
            } else {
                None
            }
        },
        ParseState::Shape => {
            if name == spec_word(Word::Indexes) {
                Some(ArrayInfo { type_code: if o.ignore_geometry { 0x2du8 } else { 0x69u8 }, flags: ARRAY_FLAG_RESULT })
            } else if name == spec_word(Word::Vertices) {
                Some(ArrayInfo { type_code: if o.ignore_geometry { 0x2du8 } else { 0x72u8 }, flags: ARRAY_FLAG_RESULT | ARRAY_FLAG_PAD_BEGIN })
            } else if name == spec_word(Word::Normals) {
                Some(ArrayInfo { type_code: if o.ignore_geometry { 0x2du8 } else { 0x72u8 }, flags: ARRAY_FLAG_RESULT | ARRAY_FLAG_PAD_BEGIN })
            } else {
                None
            }
        },
        ParseState::Deformer => {
            if name == spec_word(Word::Transform) {
                Some(ArrayInfo { type_code: 0x72u8, flags: seed })
            } else if name == spec_word(Word::TransformLink) {
                Some(ArrayInfo { type_code: 0x72u8, flags: seed })
            } else if name == spec_word(Word::Indexes) {
                Some(ArrayInfo { type_code: if o.ignore_geometry { 0x2du8 } else { 0x69u8 }, flags: ARRAY_FLAG_RESULT })
            } else if name == spec_word(Word::Weights) {
                Some(ArrayInfo { type_code: if o.ignore_geometry { 0x2du8 } else { 0x72u8 }, flags: ARRAY_FLAG_RESULT })
            } else if name == spec_word(Word::BlendWeights) {
                Some(ArrayInfo { type_code: if o.ignore_geometry { 0x2du8 } else { 0x72u8 }, flags: ARRAY_FLAG_RESULT })
            } else if name == spec_word(Word::FullWeights) {
                Some(ArrayInfo { type_code: 0x72u8, flags: seed | if o.blender_full_weights { ARRAY_FLAG_RESULT } else { ARRAY_FLAG_TMP_BUF } })
            } else if name == spec_word(Word::TransformAssociateModel) {
                Some(ArrayInfo { type_code: if o.retain_dom { 0x72u8 } else { 0x2du8 }, flags: seed })
            } else {
                None
            }
        },
        ParseState::AssociateModel => {
            if name == spec_word(Word::Transform) {
                Some(ArrayInfo { type_code: if o.retain_dom { 0x72u8 } else { 0x2du8 }, flags: seed })
            } else {
                None
            }
        },
        ParseState::LegacyLink => {
            if name == spec_word(Word::Transform) {
                Some(ArrayInfo { type_code: 0x72u8, flags: seed })
            } else if name == spec_word(Word::TransformLink) {
                Some(ArrayInfo { type_code: 0x72u8, flags: seed })
            } else if name == spec_word(Word::Indexes) {
                Some(ArrayInfo { type_code: if o.ignore_geometry { 0x2du8 } else { 0x69u8 }, flags: ARRAY_FLAG_RESULT })
            } else if name == spec_word(Word::Weights) {
                Some(ArrayInfo { type_code: if o.ignore_geometry { 0x2du8 } else { 0x72u8 }, flags: ARRAY_FLAG_RESULT })
            } else {
                None
            }
        },
        ParseState::PoseNode => {
            if name == spec_word(Word::Matrix) {
                Some(ArrayInfo { type_code: 0x72u8, flags: seed })
            } else {
                None
            }
        },
        ParseState::Channel => {
            if name == spec_word(Word::Key) {
                Some(ArrayInfo { type_code: if o.ignore_animation { 0x2du8 } else { 0x64u8 }, flags: seed })
            } else {
                None
            }
        },
        ParseState::Audio => {
            if name == spec_word(Word::Content) {
                Some(ArrayInfo { type_code: if o.ignore_embedded { 0x2du8 } else { 0x43u8 }, flags: seed })
            } else {
                None
            }
        },
        _ => {
            if name == spec_word(Word::BinaryData) {
                Some(ArrayInfo { type_code: if o.ignore_embedded { 0x2du8 } else { 0x43u8 }, flags: seed })
            } else {
                None
            }
        },
    }
}

/// The array of a node (see `spec_array_info`).
pub fn is_array_node(o: &ArrayNodeOpts, parent: ParseState, name: &[u8]) -> (r: Option<ArrayInfo>)
    ensures
        r == spec_array_info(*o, parent, name@),
{
    let seed: u8 = if o.retain_dom { ARRAY_FLAG_RESULT } else { 0u8 };
    match parent {
        ParseState::Thumbnail => {
            if name_is(name, Word::ImageData) {
                return Some(ArrayInfo { type_code: 0x63u8, flags: ARRAY_FLAG_RESULT });
            }
        },
        ParseState::Geometry | ParseState::Model => {
            if name_is(name, Word::Vertices) {
                return Some(ArrayInfo { type_code: if o.ignore_geometry { 0x2du8 } else { 0x72u8 }, flags: ARRAY_FLAG_RESULT | ARRAY_FLAG_PAD_BEGIN });
            }
            if name_is(name, Word::PolygonVertexIndex) {
                return Some(ArrayInfo { type_code: if o.ignore_geometry { 0x2du8 } else { 0x69u8 }, flags: ARRAY_FLAG_RESULT });
            }
            if name_is(name, Word::Edges) {
                return Some(ArrayInfo { type_code: if o.ignore_geometry { 0x2du8 } else { 0x69u8 }, flags: seed });
            }
            if name_is(name, Word::Indexes) {
                return Some(ArrayInfo { type_code: if o.ignore_geometry { 0x2du8 } else { 0x69u8 }, flags: ARRAY_FLAG_RESULT });
            }
            if name_is(name, Word::Points) {
                return Some(ArrayInfo { type_code: if o.ignore_geometry { 0x2du8 } else { 0x72u8 }, flags: ARRAY_FLAG_RESULT });
            }
            if name_is(name, Word::KnotVector) {
                return Some(ArrayInfo { type_code: if o.ignore_geometry { 0x2du8 } else { 0x72u8 }, flags: ARRAY_FLAG_RESULT });
            }
            if name_is(name, Word::KnotVectorU) {
                return Some(ArrayInfo { type_code: if o.ignore_geometry { 0x2du8 } else { 0x72u8 }, flags: ARRAY_FLAG_RESULT });
            }
            if name_is(name, Word::KnotVectorV) {
                return Some(ArrayInfo { type_code: if o.ignore_geometry { 0x2du8 } else { 0x72u8 }, flags: ARRAY_FLAG_RESULT });
            }
            if name_is(name, Word::PointsIndex) {
                return Some(ArrayInfo { type_code: if o.ignore_geometry { 0x2du8 } else { 0x69u8 }, flags: ARRAY_FLAG_RESULT });
            }
            if name_is(name, Word::Normals) {
                return Some(ArrayInfo { type_code: if o.ignore_geometry { 0x2du8 } else { 0x72u8 }, flags: ARRAY_FLAG_RESULT | ARRAY_FLAG_PAD_BEGIN });
            }
        },
        ParseState::LegacyModel => {
            if name_is(name, Word::Vertices) {
                return Some(ArrayInfo { type_code: if o.ignore_geometry { 0x2du8 } else { 0x72u8 }, flags: ARRAY_FLAG_RESULT | ARRAY_FLAG_PAD_BEGIN });
            }
            if name_is(name, Word::Normals) {
                return Some(ArrayInfo { type_code: if o.ignore_geometry { 0x2du8 } else { 0x72u8 }, flags: ARRAY_FLAG_RESULT | ARRAY_FLAG_PAD_BEGIN });
            }
            if name_is(name, Word::Materials) {
                return Some(ArrayInfo { type_code: if o.ignore_geometry { 0x2du8 } else { 0x69u8 }, flags: ARRAY_FLAG_RESULT });
            }
            if name_is(name, Word::PolygonVertexIndex) {
                return Some(ArrayInfo { type_code: if o.ignore_geometry { 0x2du8 } else { 0x69u8 }, flags: ARRAY_FLAG_RESULT });
            }
            if name_is(name, Word::Children) {
                return Some(ArrayInfo { type_code: 0x73u8, flags: seed });
            }
        },
        ParseState::AnimationCurve => {
            if name_is(name, Word::KeyTime) {
                return Some(ArrayInfo { type_code: if o.ignore_animation { 0x2du8 } else { 0x6cu8 }, flags: seed });
            }
            if name_is(name, Word::KeyValueFloat) {
                return Some(ArrayInfo { type_code: if o.ignore_animation { 0x2du8 } else { 0x72u8 }, flags: seed });
            }
            if name_is(name, Word::KeyAttrFlags) {
                return Some(ArrayInfo { type_code: if o.ignore_animation { 0x2du8 } else { 0x69u8 }, flags: seed });
            }
            if name_is(name, Word::KeyAttrDataFloat) {
                return Some(ArrayInfo { type_code: if o.ignore_animation { 0x2du8 } else if o.from_ascii && o.version >= 7200 { 0x69u8 } else { 0x66u8 }, flags: if o.from_ascii && o.version < 7200 { seed | ARRAY_FLAG_ACCURATE_F32 } else { seed } });
            }
            if name_is(name, Word::KeyAttrRefCount) {
                return Some(ArrayInfo { type_code: if o.ignore_animation { 0x2du8 } else { 0x69u8 }, flags: seed });
            }
        },
        ParseState::Texture => {
            if name_is(name, Word::ModelUVTranslation) {
                return Some(ArrayInfo { type_code: if o.retain_dom { 0x72u8 } else { 0x2du8 }, flags: seed });
            }
            if name_is(name, Word::ModelUVScaling) {
                return Some(ArrayInfo { type_code: if o.retain_dom { 0x72u8 } else { 0x2du8 }, flags: seed });
            }
            if name_is(name, Word::Cropping) {
                return Some(ArrayInfo { type_code: if o.retain_dom { 0x72u8 } else { 0x2du8 }, flags: seed });
            }
        },
        ParseState::Video => {
            if name_is(name, Word::Content) {
                return Some(ArrayInfo { type_code: if o.ignore_embedded { 0x2du8 } else { 0x43u8 }, flags: seed });
            }
        },
        ParseState::LayeredTexture => {
            if name_is(name, Word::BlendModes) {
                return Some(ArrayInfo { type_code: 0x69u8, flags: seed | ARRAY_FLAG_TMP_BUF });
            }
            if name_is(name, Word::Alphas) {
                return Some(ArrayInfo { type_code: 0x72u8, flags: seed | ARRAY_FLAG_TMP_BUF });
            }
        },
        ParseState::SelectionNode => {
            if name_is(name, Word::VertexIndexArray) {
                return Some(ArrayInfo { type_code: 0x69u8, flags: ARRAY_FLAG_RESULT });
            }
            if name_is(name, Word::EdgeIndexArray) {
                return Some(ArrayInfo { type_code: 0x69u8, flags: ARRAY_FLAG_RESULT });
            }
            if name_is(name, Word::PolygonIndexArray) {
                return Some(ArrayInfo { type_code: 0x69u8, flags: ARRAY_FLAG_RESULT });
            }
        },
        ParseState::LayerElementNormal => {
            if name_is(name, Word::Normals) {
                return Some(ArrayInfo { type_code: if o.ignore_geometry { 0x2du8 } else { 0x72u8 }, flags: ARRAY_FLAG_RESULT | ARRAY_FLAG_PAD_BEGIN });
            }
            if name_is(name, Word::NormalsIndex) {
                return Some(ArrayInfo { type_code: if o.ignore_geometry { 0x2du8 } else { 0x69u8 }, flags: ARRAY_FLAG_RESULT });
            }
            if name_is(name, Word::NormalsW) {
                return Some(ArrayInfo { type_code: if o.retain_vertex_w { 0x72u8 } else { 0x2du8 }, flags: ARRAY_FLAG_RESULT | ARRAY_FLAG_PAD_BEGIN });
            }
        },
        ParseState::LayerElementBinormal => {
            if name_is(name, Word::Binormals) {
                return Some(ArrayInfo { type_code: if o.ignore_geometry { 0x2du8 } else { 0x72u8 }, flags: ARRAY_FLAG_RESULT | ARRAY_FLAG_PAD_BEGIN });
            }
            if name_is(name, Word::BinormalsIndex) {
                return Some(ArrayInfo { type_code: if o.ignore_geometry { 0x2du8 } else { 0x69u8 }, flags: ARRAY_FLAG_RESULT });
            }
            if name_is(name, Word::BinormalsW) {
                return Some(ArrayInfo { type_code: if o.retain_vertex_w { 0x72u8 } else { 0x2du8 }, flags: ARRAY_FLAG_RESULT | ARRAY_FLAG_PAD_BEGIN });
            }
        },
        ParseState::LayerElementTangent => {
            if name_is(name, Word::Tangents) {
                return Some(ArrayInfo { type_code: if o.ignore_geometry { 0x2du8 } else { 0x72u8 }, flags: ARRAY_FLAG_RESULT | ARRAY_FLAG_PAD_BEGIN });
            }
            if name_is(name, Word::TangentsIndex) {
                return Some(ArrayInfo { type_code: if o.ignore_geometry { 0x2du8 } else { 0x69u8 }, flags: ARRAY_FLAG_RESULT });
            }
            if name_is(name, Word::TangentsW) {
                return Some(ArrayInfo { type_code: if o.retain_vertex_w { 0x72u8 } else { 0x2du8 }, flags: ARRAY_FLAG_RESULT | ARRAY_FLAG_PAD_BEGIN });
            }
        },
        ParseState::LayerElementUv => {
            if name_is(name, Word::UV) {
                return Some(ArrayInfo { type_code: if o.ignore_geometry { 0x2du8 } else { 0x72u8 }, flags: ARRAY_FLAG_RESULT | ARRAY_FLAG_PAD_BEGIN });
            }
            if name_is(name, Word::UVIndex) {
                return Some(ArrayInfo { type_code: if o.ignore_geometry { 0x2du8 } else { 0x69u8 }, flags: ARRAY_FLAG_RESULT });
            }
        },
        ParseState::LayerElementColor => {
            if name_is(name, Word::Colors) {
                return Some(ArrayInfo { type_code: if o.ignore_geometry { 0x2du8 } else { 0x72u8 }, flags: ARRAY_FLAG_RESULT | ARRAY_FLAG_PAD_BEGIN });
            }
            if name_is(name, Word::ColorIndex) {
                return Some(ArrayInfo { type_code: if o.ignore_geometry { 0x2du8 } else { 0x69u8 }, flags: ARRAY_FLAG_RESULT });
            }
        },
        ParseState::LayerElementVertexCrease => {
            if name_is(name, Word::VertexCrease) {
                return Some(ArrayInfo { type_code: if o.ignore_geometry { 0x2du8 } else { 0x72u8 }, flags: ARRAY_FLAG_RESULT | ARRAY_FLAG_PAD_BEGIN });
            }
            if name_is(name, Word::VertexCreaseIndex) {
                return Some(ArrayInfo { type_code: if o.ignore_geometry { 0x2du8 } else { 0x69u8 }, flags: ARRAY_FLAG_RESULT });
            }
        },
        ParseState::LayerElementEdgeCrease => {
            if name_is(name, Word::EdgeCrease) {
                return Some(ArrayInfo { type_code: if o.ignore_geometry { 0x2du8 } else { 0x72u8 }, flags: ARRAY_FLAG_RESULT });
            }
        },
        ParseState::LayerElementSmoothing => {
            if name_is(name, Word::Smoothing) {
                return Some(ArrayInfo { type_code: if o.ignore_geometry { 0x2du8 } else { 0x62u8 }, flags: ARRAY_FLAG_RESULT });
            }
        },
        ParseState::LayerElementVisibility => {
            if name_is(name, Word::Visibility) {
                return Some(ArrayInfo { type_code: if o.ignore_geometry { 0x2du8 } else { 0x62u8 }, flags: ARRAY_FLAG_RESULT });
            }
        },
        ParseState::LayerElementPolygonGroup => {
            if name_is(name, Word::PolygonGroup) {
                return Some(ArrayInfo { type_code: if o.ignore_geometry { 0x2du8 } else { 0x69u8 }, flags: ARRAY_FLAG_RESULT });
            }
        },
        ParseState::LayerElementHole => {
            if name_is(name, Word::Hole) {
                return Some(ArrayInfo { type_code: if o.ignore_geometry { 0x2du8 } else { 0x62u8 }, flags: ARRAY_FLAG_RESULT });
            }
        },
        ParseState::LayerElementMaterial => {
            if name_is(name, Word::Materials) {
                return Some(ArrayInfo { type_code: if o.ignore_geometry { 0x2du8 } else { 0x69u8 }, flags: ARRAY_FLAG_RESULT });
            }
        },
        ParseState::LayerElementOther => {
            if name_is(name, Word::TextureId) {
                return Some(ArrayInfo { type_code: if o.ignore_geometry { 0x2du8 } else { 0x69u8 }, flags: seed | ARRAY_FLAG_TMP_BUF });
            }
            if name_is(name, Word::UV) {
                return Some(ArrayInfo { type_code: if o.retain_dom { 0x72u8 } else { 0x2du8 }, flags: seed });
            }
            if name_is(name, Word::UVIndex) {
                return Some(ArrayInfo { type_code: if o.retain_dom { 0x69u8 } else { 0x2du8 }, flags: seed });
            }
        },
        ParseState::GeometryUvInfo => {
            if name_is(name, Word::TextureUV) {
                return Some(ArrayInfo { type_code: if o.ignore_geometry { 0x2du8 } else { 0x72u8 }, flags: ARRAY_FLAG_RESULT | ARRAY_FLAG_PAD_BEGIN });
            }
            if name_is(name, Word::TextureUVVerticeIndex) {
                return Some(ArrayInfo { type_code: if o.ignore_geometry { 0x2du8 } else { 0x69u8 }, flags: ARRAY_FLAG_RESULT | ARRAY_FLAG_PAD_BEGIN });
            }
        },
        ParseState::Shape => {
            if name_is(name, Word::Indexes) {
                return Some(ArrayInfo { type_code: if o.ignore_geometry { 0x2du8 } else { 0x69u8 }, flags: ARRAY_FLAG_RESULT });
            }
            if name_is(name, Word::Vertices) {
                return Some(ArrayInfo { type_code: if o.ignore_geometry { 0x2du8 } else { 0x72u8 }, flags: ARRAY_FLAG_RESULT | ARRAY_FLAG_PAD_BEGIN });
            }
            if name_is(name, Word::Normals) {
                return Some(ArrayInfo { type_code: if o.ignore_geometry { 0x2du8 } else { 0x72u8 }, flags: ARRAY_FLAG_RESULT | ARRAY_FLAG_PAD_BEGIN });
            }
        },
        ParseState::Deformer => {
            if name_is(name, Word::Transform) {
                return Some(ArrayInfo { type_code: 0x72u8, flags: seed });
            }
            if name_is(name, Word::TransformLink) {
                return Some(ArrayInfo { type_code: 0x72u8, flags: seed });
            }
            if name_is(name, Word::Indexes) {
                return Some(ArrayInfo { type_code: if o.ignore_geometry { 0x2du8 } else { 0x69u8 }, flags: ARRAY_FLAG_RESULT });
            }
            if name_is(name, Word::Weights) {
                return Some(ArrayInfo { type_code: if o.ignore_geometry { 0x2du8 } else { 0x72u8 }, flags: ARRAY_FLAG_RESULT });
            }
            if name_is(name, Word::BlendWeights) {
                return Some(ArrayInfo { type_code: if o.ignore_geometry { 0x2du8 } else { 0x72u8 }, flags: ARRAY_FLAG_RESULT });
            }
            if name_is(name, Word::FullWeights) {
                return Some(ArrayInfo { type_code: 0x72u8, flags: seed | if o.blender_full_weights { ARRAY_FLAG_RESULT } else { ARRAY_FLAG_TMP_BUF } });
            }
            if name_is(name, Word::TransformAssociateModel) {
                return Some(ArrayInfo { type_code: if o.retain_dom { 0x72u8 } else { 0x2du8 }, flags: seed });
            }
        },
        ParseState::AssociateModel => {
            if name_is(name, Word::Transform) {
                return Some(ArrayInfo { type_code: if o.retain_dom { 0x72u8 } else { 0x2du8 }, flags: seed });
            }
        },
        ParseState::LegacyLink => {
            if name_is(name, Word::Transform) {
                return Some(ArrayInfo { type_code: 0x72u8, flags: seed });
            }
            if name_is(name, Word::TransformLink) {
                return Some(ArrayInfo { type_code: 0x72u8, flags: seed });
            }
            if name_is(name, Word::Indexes) {
                return Some(ArrayInfo { type_code: if o.ignore_geometry { 0x2du8 } else { 0x69u8 }, flags: ARRAY_FLAG_RESULT });
            }
            if name_is(name, Word::Weights) {
                return Some(ArrayInfo { type_code: if o.ignore_geometry { 0x2du8 } else { 0x72u8 }, flags: ARRAY_FLAG_RESULT });
            }
        },
        ParseState::PoseNode => {
            if name_is(name, Word::Matrix) {
                return Some(ArrayInfo { type_code: 0x72u8, flags: seed });
            }
        },
        ParseState::Channel => {
            if name_is(name, Word::Key) {
                return Some(ArrayInfo { type_code: if o.ignore_animation { 0x2du8 } else { 0x64u8 }, flags: seed });
            }
        },
        ParseState::Audio => {
            if name_is(name, Word::Content) {
                return Some(ArrayInfo { type_code: if o.ignore_embedded { 0x2du8 } else { 0x43u8 }, flags: seed });
            }
        },
        _ => {
            if name_is(name, Word::BinaryData) {
                return Some(ArrayInfo { type_code: if o.ignore_embedded { 0x2du8 } else { 0x43u8 }, flags: seed });
            }
        },
    }
    None
}


/// Whether the string values of a node named `name` inside a node of
/// state `parent` are kept raw (not sanitized): object definitions and
/// names that carry binary data or name-and-type pairs; connections only
/// before version 7000, where they pair names with types.
pub open spec fn spec_is_raw_string(parent: ParseState, name: Seq<u8>, version: u32) -> bool {
    match parent {
        ParseState::Objects => true,
        ParseState::Connections | ParseState::Relations => version < 7000,
        ParseState::Root => name == spec_word(Word::Model) || name == spec_word(Word::FileId),
        ParseState::FbxHeaderExtension => name == spec_word(Word::SceneInfo),
        ParseState::Model => name == spec_word(Word::NodeAttributeName) || name == spec_word(Word::Name),
        ParseState::Video => name == spec_word(Word::Content),
        ParseState::Texture => name == spec_word(Word::TextureName) || name == spec_word(Word::Media),
        ParseState::Geometry => name == spec_word(Word::NodeAttributeName) || name == spec_word(Word::Name),
        ParseState::NodeAttribute => name == spec_word(Word::NodeAttributeName) || name == spec_word(Word::Name),
        ParseState::PoseNode => name == spec_word(Word::Node),
        ParseState::SelectionNode => name == spec_word(Word::Node),
        ParseState::UnknownObject => name == spec_word(Word::NodeAttributeName) || name == spec_word(Word::Name),
        ParseState::Collection => name == spec_word(Word::Member),
        ParseState::Audio => name == spec_word(Word::Content),
        ParseState::LegacyModel => name == spec_word(Word::Material) || name == spec_word(Word::Link) || name == spec_word(Word::Name),
        ParseState::LegacySwitcher => name == spec_word(Word::CameraIndexName),
        ParseState::LegacyScenePersistence => name == spec_word(Word::SceneInfo),
        ParseState::Reference => name == spec_word(Word::Object),
        ParseState::Take => name == spec_word(Word::Model),
        _ => false,
    }
}

/// Whether a node's string values are kept raw (see `spec_is_raw_string`).
pub fn is_raw_string(parent: ParseState, name: &[u8], version: u32) -> (r: bool)
    ensures
        r == spec_is_raw_string(parent, name@, version),
{
    match parent {
        ParseState::Objects => true,
        ParseState::Connections | ParseState::Relations => version < 7000,
        ParseState::Root => name_is(name, Word::Model) || name_is(name, Word::FileId),
        ParseState::FbxHeaderExtension => name_is(name, Word::SceneInfo),
        ParseState::Model => name_is(name, Word::NodeAttributeName) || name_is(name, Word::Name),
        ParseState::Video => name_is(name, Word::Content),
        ParseState::Texture => name_is(name, Word::TextureName) || name_is(name, Word::Media),
        ParseState::Geometry => name_is(name, Word::NodeAttributeName) || name_is(name, Word::Name),
        ParseState::NodeAttribute => name_is(name, Word::NodeAttributeName) || name_is(name, Word::Name),
        ParseState::PoseNode => name_is(name, Word::Node),
        ParseState::SelectionNode => name_is(name, Word::Node),
        ParseState::UnknownObject => name_is(name, Word::NodeAttributeName) || name_is(name, Word::Name),
        ParseState::Collection => name_is(name, Word::Member),
        ParseState::Audio => name_is(name, Word::Content),
        ParseState::LegacyModel => name_is(name, Word::Material) || name_is(name, Word::Link) || name_is(name, Word::Name),
        ParseState::LegacySwitcher => name_is(name, Word::CameraIndexName),
        ParseState::LegacyScenePersistence => name_is(name, Word::SceneInfo),
        ParseState::Reference => name_is(name, Word::Object),
        ParseState::Take => name_is(name, Word::Model),
        _ => false,
    }
}

} // verus!
