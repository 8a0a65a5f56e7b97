//! The option record the loader reads and the metadata record it fills in.
use vstd::prelude::*;

verus! {

/// File formats the loader reads.
#[derive(Clone, Copy, Debug, PartialEq, Eq, Structural)]
pub enum FileFormat {
    Unknown,
    Fbx,
    Obj,
    Mtl,
}

/// The loader options the parsers consult.
#[derive(Clone, Copy, Debug)]
pub struct LoadOptsView {
    /// Keep faces without any indices instead of dropping them.
    pub allow_empty_faces: bool,
    /// Accept meshes without vertex positions.
    pub allow_missing_vertex_position: bool,
    /// Allow nodes that are not reachable from the root.
    pub allow_nodes_out_of_root: bool,
    /// Permit options that trade safety for compatibility.
    pub allow_unsafe: bool,
    /// Normalize and sort skin weights.
    pub clean_skin_weights: bool,
    /// Connect elements with broken references to the root.
    pub connect_broken_elements: bool,
    /// Turn off exporter specific workarounds.
    pub disable_quirks: bool,
    /// Evaluate geometry caches.
    pub evaluate_caches: bool,
    /// Evaluate skinning.
    pub evaluate_skinning: bool,
    /// Format to parse the input as (`Unknown` detects it).
    pub file_format: FileFormat,
    /// Number of bytes inspected when detecting the format.
    pub file_format_lookahead: usize,
    /// Expected size of the input, used for progress reports.
    pub file_size_estimate: u64,
    /// Parse ASCII FBX on a single thread.
    pub force_single_thread_ascii_parsing: bool,
    /// Generate normals for meshes without any.
    pub generate_missing_normals: bool,
    /// Raw value of the geometry transform handling mode.
    pub geometry_transform_handling: u32,
    /// Raw value of the axis mirrored by handedness conversion.
    pub handedness_conversion_axis: u32,
    /// Keep face winding when converting handedness.
    pub handedness_conversion_retain_winding: bool,
    /// Skip all content and read only the header data.
    pub ignore_all_content: bool,
    /// Skip animation data.
    pub ignore_animation: bool,
    /// Skip embedded content.
    pub ignore_embedded: bool,
    /// Skip geometry data.
    pub ignore_geometry: bool,
    /// Do not fail on missing external files.
    pub ignore_missing_external_files: bool,
    /// Raw value of the index error handling mode.
    pub index_error_handling: u32,
    /// Raw value of the inherit mode handling.
    pub inherit_mode_handling: u32,
    /// Load external files such as `.mtl` libraries.
    pub load_external_files: bool,
    /// Do not detect the format from the content.
    pub no_format_from_content: bool,
    /// Do not detect the format from the file extension.
    pub no_format_from_extension: bool,
    /// Maximum depth of the node hierarchy.
    pub node_depth_limit: u32,
    /// Normalize vertex normals.
    pub normalize_normals: bool,
    /// Normalize vertex tangents.
    pub normalize_tangents: bool,
    /// Merge `.obj` groups into one mesh.
    pub obj_merge_groups: bool,
    /// Merge `.obj` objects into one mesh.
    pub obj_merge_objects: bool,
    /// Look for the `.mtl` file by the `.obj` file name.
    pub obj_search_mtl_by_filename: bool,
    /// Make each `.obj` group its own mesh.
    pub obj_split_groups: bool,
    /// Open the main file with the default file callback.
    pub open_main_file_with_default: bool,
    /// Separator used when building file paths.
    pub path_separator: u8,
    /// Raw value of the pivot handling mode.
    pub pivot_handling: u32,
    /// Keep empty nodes created by pivot handling.
    pub pivot_handling_retain_empties: bool,
    /// Number of bytes between progress reports.
    pub progress_interval_hint: u64,
    /// Size of the buffer used for reading input.
    pub read_buffer_size: usize,
    /// Keep the parsed DOM of the file.
    pub retain_dom: bool,
    /// Keep the `w` component of vertex attributes.
    pub retain_vertex_attrib_w: bool,
    /// Reverse the winding of faces.
    pub reverse_winding: bool,
    /// Do not compute mesh parts.
    pub skip_mesh_parts: bool,
    /// Do not compute skin vertices.
    pub skip_skin_vertices: bool,
    /// Raw value of the space conversion mode.
    pub space_conversion: u32,
    /// Fail on recoverable errors.
    pub strict: bool,
    /// Raw value of the unicode error handling mode.
    pub unicode_error_handling: u32,
    /// Read materials as Blender's PBR material.
    pub use_blender_pbr_material: bool,
    /// Apply the root transform.
    pub use_root_transform: bool,
}

impl LoadOptsView {
    /// The `allow_empty_faces` field.
    pub fn allow_empty_faces(&self) -> (r: bool)
        ensures
            r == self.allow_empty_faces,
    {
        self.allow_empty_faces
    }

    /// The `allow_missing_vertex_position` field.
    pub fn allow_missing_vertex_position(&self) -> (r: bool)
        ensures
            r == self.allow_missing_vertex_position,
    {
        self.allow_missing_vertex_position
    }

    /// The `allow_nodes_out_of_root` field.
    pub fn allow_nodes_out_of_root(&self) -> (r: bool)
        ensures
            r == self.allow_nodes_out_of_root,
    {
        self.allow_nodes_out_of_root
    }

    /// The `allow_unsafe` field.
    pub fn allow_unsafe(&self) -> (r: bool)
        ensures
            r == self.allow_unsafe,
    {
        self.allow_unsafe
    }

    /// The `clean_skin_weights` field.
    pub fn clean_skin_weights(&self) -> (r: bool)
        ensures
            r == self.clean_skin_weights,
    {
        self.clean_skin_weights
    }

    /// The `connect_broken_elements` field.
    pub fn connect_broken_elements(&self) -> (r: bool)
        ensures
            r == self.connect_broken_elements,
    {
        self.connect_broken_elements
    }

    /// The `disable_quirks` field.
    pub fn disable_quirks(&self) -> (r: bool)
        ensures
            r == self.disable_quirks,
    {
        self.disable_quirks
    }

    /// The `evaluate_caches` field.
    pub fn evaluate_caches(&self) -> (r: bool)
        ensures
            r == self.evaluate_caches,
    {
        self.evaluate_caches
    }

    /// The `evaluate_skinning` field.
    pub fn evaluate_skinning(&self) -> (r: bool)
        ensures
            r == self.evaluate_skinning,
    {
        self.evaluate_skinning
    }

    /// The `file_format` field.
    pub fn file_format(&self) -> (r: FileFormat)
        ensures
            r == self.file_format,
    {
        self.file_format
    }

    /// The `file_format_lookahead` field.
    pub fn file_format_lookahead(&self) -> (r: usize)
        ensures
            r == self.file_format_lookahead,
    {
        self.file_format_lookahead
    }

    /// Replaces the `file_format_lookahead` field.
    pub fn set_file_format_lookahead(&mut self, file_format_lookahead: usize)
        ensures
            *final(self) == (LoadOptsView { file_format_lookahead, ..*old(self) }),
    {
        self.file_format_lookahead = file_format_lookahead;
    }

    /// The `file_size_estimate` field.
    pub fn file_size_estimate(&self) -> (r: u64)
        ensures
            r == self.file_size_estimate,
    {
        self.file_size_estimate
    }

    /// The `force_single_thread_ascii_parsing` field.
    pub fn force_single_thread_ascii_parsing(&self) -> (r: bool)
        ensures
            r == self.force_single_thread_ascii_parsing,
    {
        self.force_single_thread_ascii_parsing
    }

    /// The `generate_missing_normals` field.
    pub fn generate_missing_normals(&self) -> (r: bool)
        ensures
            r == self.generate_missing_normals,
    {
        self.generate_missing_normals
    }

    /// The `geometry_transform_handling` field.
    pub fn geometry_transform_handling(&self) -> (r: u32)
        ensures
            r == self.geometry_transform_handling,
    {
        self.geometry_transform_handling
    }

    /// The `handedness_conversion_axis` field.
    pub fn handedness_conversion_axis(&self) -> (r: u32)
        ensures
            r == self.handedness_conversion_axis,
    {
        self.handedness_conversion_axis
    }

    /// The `handedness_conversion_retain_winding` field.
    pub fn handedness_conversion_retain_winding(&self) -> (r: bool)
        ensures
            r == self.handedness_conversion_retain_winding,
    {
        self.handedness_conversion_retain_winding
    }

    /// The `ignore_all_content` field.
    pub fn ignore_all_content(&self) -> (r: bool)
        ensures
            r == self.ignore_all_content,
    {
        self.ignore_all_content
    }

    /// The `ignore_animation` field.
    pub fn ignore_animation(&self) -> (r: bool)
        ensures
            r == self.ignore_animation,
    {
        self.ignore_animation
    }

    /// Replaces the `ignore_animation` field.
    pub fn set_ignore_animation(&mut self, ignore_animation: bool)
        ensures
            *final(self) == (LoadOptsView { ignore_animation, ..*old(self) }),
    {
        self.ignore_animation = ignore_animation;
    }

    /// The `ignore_embedded` field.
    pub fn ignore_embedded(&self) -> (r: bool)
        ensures
            r == self.ignore_embedded,
    {
        self.ignore_embedded
    }

    /// Replaces the `ignore_embedded` field.
    pub fn set_ignore_embedded(&mut self, ignore_embedded: bool)
        ensures
            *final(self) == (LoadOptsView { ignore_embedded, ..*old(self) }),
    {
        self.ignore_embedded = ignore_embedded;
    }

    /// The `ignore_geometry` field.
    pub fn ignore_geometry(&self) -> (r: bool)
        ensures
            r == self.ignore_geometry,
    {
        self.ignore_geometry
    }

    /// Replaces the `ignore_geometry` field.
    pub fn set_ignore_geometry(&mut self, ignore_geometry: bool)
        ensures
            *final(self) == (LoadOptsView { ignore_geometry, ..*old(self) }),
    {
        self.ignore_geometry = ignore_geometry;
    }

    /// The `ignore_missing_external_files` field.
    pub fn ignore_missing_external_files(&self) -> (r: bool)
        ensures
            r == self.ignore_missing_external_files,
    {
        self.ignore_missing_external_files
    }

    /// The `index_error_handling` field.
    pub fn index_error_handling(&self) -> (r: u32)
        ensures
            r == self.index_error_handling,
    {
        self.index_error_handling
    }

    /// The `inherit_mode_handling` field.
    pub fn inherit_mode_handling(&self) -> (r: u32)
        ensures
            r == self.inherit_mode_handling,
    {
        self.inherit_mode_handling
    }

    /// The `load_external_files` field.
    pub fn load_external_files(&self) -> (r: bool)
        ensures
            r == self.load_external_files,
    {
        self.load_external_files
    }

    /// The `no_format_from_content` field.
    pub fn no_format_from_content(&self) -> (r: bool)
        ensures
            r == self.no_format_from_content,
    {
        self.no_format_from_content
    }

    /// The `no_format_from_extension` field.
    pub fn no_format_from_extension(&self) -> (r: bool)
        ensures
            r == self.no_format_from_extension,
    {
        self.no_format_from_extension
    }

    /// The `node_depth_limit` field.
    pub fn node_depth_limit(&self) -> (r: u32)
        ensures
            r == self.node_depth_limit,
    {
        self.node_depth_limit
    }

    /// The `normalize_normals` field.
    pub fn normalize_normals(&self) -> (r: bool)
        ensures
            r == self.normalize_normals,
    {
        self.normalize_normals
    }

    /// The `normalize_tangents` field.
    pub fn normalize_tangents(&self) -> (r: bool)
        ensures
            r == self.normalize_tangents,
    {
        self.normalize_tangents
    }

    /// The `obj_merge_groups` field.
    pub fn obj_merge_groups(&self) -> (r: bool)
        ensures
            r == self.obj_merge_groups,
    {
        self.obj_merge_groups
    }

    /// Replaces the `obj_merge_groups` field.
    pub fn set_obj_merge_groups(&mut self, obj_merge_groups: bool)
        ensures
            *final(self) == (LoadOptsView { obj_merge_groups, ..*old(self) }),
    {
        self.obj_merge_groups = obj_merge_groups;
    }

    /// The `obj_merge_objects` field.
    pub fn obj_merge_objects(&self) -> (r: bool)
        ensures
            r == self.obj_merge_objects,
    {
        self.obj_merge_objects
    }

    /// The `obj_search_mtl_by_filename` field.
    pub fn obj_search_mtl_by_filename(&self) -> (r: bool)
        ensures
            r == self.obj_search_mtl_by_filename,
    {
        self.obj_search_mtl_by_filename
    }

    /// The `obj_split_groups` field.
    pub fn obj_split_groups(&self) -> (r: bool)
        ensures
            r == self.obj_split_groups,
    {
        self.obj_split_groups
    }

    /// The `open_main_file_with_default` field.
    pub fn open_main_file_with_default(&self) -> (r: bool)
        ensures
            r == self.open_main_file_with_default,
    {
        self.open_main_file_with_default
    }

    /// The `path_separator` field.
    pub fn path_separator(&self) -> (r: u8)
        ensures
            r == self.path_separator,
    {
        self.path_separator
    }

    /// Replaces the `path_separator` field.
    pub fn set_path_separator(&mut self, path_separator: u8)
        ensures
            *final(self) == (LoadOptsView { path_separator, ..*old(self) }),
    {
        *self = LoadOptsView { path_separator, ..*self };
    }

    /// The `pivot_handling` field.
    pub fn pivot_handling(&self) -> (r: u32)
        ensures
            r == self.pivot_handling,
    {
        self.pivot_handling
    }

    /// The `pivot_handling_retain_empties` field.
    pub fn pivot_handling_retain_empties(&self) -> (r: bool)
        ensures
            r == self.pivot_handling_retain_empties,
    {
        self.pivot_handling_retain_empties
    }

    /// The `progress_interval_hint` field.
    pub fn progress_interval_hint(&self) -> (r: u64)
        ensures
            r == self.progress_interval_hint,
    {
        self.progress_interval_hint
    }

    /// The `read_buffer_size` field.
    pub fn read_buffer_size(&self) -> (r: usize)
        ensures
            r == self.read_buffer_size,
    {
        self.read_buffer_size
    }

    /// Replaces the `read_buffer_size` field.
    pub fn set_read_buffer_size(&mut self, read_buffer_size: usize)
        ensures
            *final(self) == (LoadOptsView { read_buffer_size, ..*old(self) }),
    {
        self.read_buffer_size = read_buffer_size;
    }

    /// The `retain_dom` field.
    pub fn retain_dom(&self) -> (r: bool)
        ensures
            r == self.retain_dom,
    {
        self.retain_dom
    }

    /// The `retain_vertex_attrib_w` field.
    pub fn retain_vertex_attrib_w(&self) -> (r: bool)
        ensures
            r == self.retain_vertex_attrib_w,
    {
        self.retain_vertex_attrib_w
    }

    /// The `reverse_winding` field.
    pub fn reverse_winding(&self) -> (r: bool)
        ensures
            r == self.reverse_winding,
    {
        self.reverse_winding
    }

    /// The `skip_mesh_parts` field.
    pub fn skip_mesh_parts(&self) -> (r: bool)
        ensures
            r == self.skip_mesh_parts,
    {
        self.skip_mesh_parts
    }

    /// The `skip_skin_vertices` field.
    pub fn skip_skin_vertices(&self) -> (r: bool)
        ensures
            r == self.skip_skin_vertices,
    {
        self.skip_skin_vertices
    }

    /// The `space_conversion` field.
    pub fn space_conversion(&self) -> (r: u32)
        ensures
            r == self.space_conversion,
    {
        self.space_conversion
    }

    /// The `strict` field.
    pub fn strict(&self) -> (r: bool)
        ensures
            r == self.strict,
    {
        self.strict
    }

    /// The `unicode_error_handling` field.
    pub fn unicode_error_handling(&self) -> (r: u32)
        ensures
            r == self.unicode_error_handling,
    {
        self.unicode_error_handling
    }

    /// The `use_blender_pbr_material` field.
    pub fn use_blender_pbr_material(&self) -> (r: bool)
        ensures
            r == self.use_blender_pbr_material,
    {
        self.use_blender_pbr_material
    }

    /// The `use_root_transform` field.
    pub fn use_root_transform(&self) -> (r: bool)
        ensures
            r == self.use_root_transform,
    {
        self.use_root_transform
    }

}

/// Facts about a loaded scene that the parsers record.
#[derive(Clone, Debug)]
pub struct SceneMetadataView {
    /// Format the scene was read from.
    pub file_format: FileFormat,
    /// Whether bone limb lengths are relative.
    pub bone_prop_limb_length_relative: bool,
    /// Raw value of the axis mirrored by handedness conversion.
    pub mirror_axis: u32,
    /// Whether unsafe options were used.
    pub is_unsafe: bool,
    /// Whether index lists may contain the no-index marker.
    pub may_contain_no_index: bool,
    /// Whether meshes may lack positions.
    pub may_contain_missing_vertex_position: bool,
    /// Whether elements may have broken references.
    pub may_contain_broken_elements: bool,
    /// File format version.
    pub version: u32,
    /// Whether the file was an ASCII FBX.
    pub ascii: bool,
    /// Whether the file was big-endian.
    pub big_endian: bool,
    /// Whether geometry was skipped.
    pub geometry_ignored: bool,
    /// Whether animation was skipped.
    pub animation_ignored: bool,
    /// Whether embedded content was skipped.
    pub embedded_ignored: bool,
    /// Raw value of the detected exporter.
    pub exporter: u32,
    /// Version of the exporter.
    pub exporter_version: u32,
    /// Number of shader textures.
    pub num_shader_textures: usize,
    /// Size of the element buffer.
    pub element_buffer_size: usize,
    /// Largest number of triangles of any face.
    pub max_face_triangles: usize,
    /// Number of KTime ticks in a second.
    pub ktime_second: i64,
    /// Name of the file the scene was read from.
    pub filename: Vec<u8>,
}

impl SceneMetadataView {
    /// The `file_format` field.
    pub fn file_format(&self) -> (r: FileFormat)
        ensures
            r == self.file_format,
    {
        self.file_format
    }

    /// Replaces the `file_format` field.
    pub fn set_file_format(&mut self, file_format: FileFormat)
        ensures
            *final(self) == (SceneMetadataView { file_format, ..*old(self) }),
    {
        self.file_format = file_format;
    }

    /// Replaces the `bone_prop_limb_length_relative` field.
    pub fn set_bone_prop_limb_length_relative(&mut self, bone_prop_limb_length_relative: bool)
        ensures
            *final(self) == (SceneMetadataView { bone_prop_limb_length_relative, ..*old(self) }),
    {
        self.bone_prop_limb_length_relative = bone_prop_limb_length_relative;
    }

    /// Replaces the `mirror_axis` field.
    pub fn set_mirror_axis(&mut self, mirror_axis: u32)
        ensures
            *final(self) == (SceneMetadataView { mirror_axis, ..*old(self) }),
    {
        self.mirror_axis = mirror_axis;
    }

    /// Replaces the `is_unsafe` field.
    pub fn set_is_unsafe(&mut self, is_unsafe: bool)
        ensures
            *final(self) == (SceneMetadataView { is_unsafe, ..*old(self) }),
    {
        self.is_unsafe = is_unsafe;
    }

    /// Replaces the `may_contain_no_index` field.
    pub fn set_may_contain_no_index(&mut self, may_contain_no_index: bool)
        ensures
            *final(self) == (SceneMetadataView { may_contain_no_index, ..*old(self) }),
    {
        self.may_contain_no_index = may_contain_no_index;
    }

    /// Replaces the `may_contain_missing_vertex_position` field.
    pub fn set_may_contain_missing_vertex_position(&mut self, may_contain_missing_vertex_position: bool)
        ensures
            *final(self) == (SceneMetadataView { may_contain_missing_vertex_position, ..*old(self) }),
    {
        self.may_contain_missing_vertex_position = may_contain_missing_vertex_position;
    }

    /// Replaces the `may_contain_broken_elements` field.
    pub fn set_may_contain_broken_elements(&mut self, may_contain_broken_elements: bool)
        ensures
            *final(self) == (SceneMetadataView { may_contain_broken_elements, ..*old(self) }),
    {
        self.may_contain_broken_elements = may_contain_broken_elements;
    }

    /// Replaces the `version` field.
    pub fn set_version(&mut self, version: u32)
        ensures
            *final(self) == (SceneMetadataView { version, ..*old(self) }),
    {
        self.version = version;
    }

    /// Replaces the `ascii` field.
    pub fn set_ascii(&mut self, ascii: bool)
        ensures
            *final(self) == (SceneMetadataView { ascii, ..*old(self) }),
    {
        self.ascii = ascii;
    }

    /// Replaces the `big_endian` field.
    pub fn set_big_endian(&mut self, big_endian: bool)
        ensures
            *final(self) == (SceneMetadataView { big_endian, ..*old(self) }),
    {
        self.big_endian = big_endian;
    }

    /// Replaces the `geometry_ignored` field.
    pub fn set_geometry_ignored(&mut self, geometry_ignored: bool)
        ensures
            *final(self) == (SceneMetadataView { geometry_ignored, ..*old(self) }),
    {
        self.geometry_ignored = geometry_ignored;
    }

    /// Replaces the `animation_ignored` field.
    pub fn set_animation_ignored(&mut self, animation_ignored: bool)
        ensures
            *final(self) == (SceneMetadataView { animation_ignored, ..*old(self) }),
    {
        self.animation_ignored = animation_ignored;
    }

    /// Replaces the `embedded_ignored` field.
    pub fn set_embedded_ignored(&mut self, embedded_ignored: bool)
        ensures
            *final(self) == (SceneMetadataView { embedded_ignored, ..*old(self) }),
    {
        self.embedded_ignored = embedded_ignored;
    }

    /// Replaces the `exporter` field.
    pub fn set_exporter(&mut self, exporter: u32)
        ensures
            *final(self) == (SceneMetadataView { exporter, ..*old(self) }),
    {
        self.exporter = exporter;
    }

    /// Replaces the `exporter_version` field.
    pub fn set_exporter_version(&mut self, exporter_version: u32)
        ensures
            *final(self) == (SceneMetadataView { exporter_version, ..*old(self) }),
    {
        self.exporter_version = exporter_version;
    }

    /// The `num_shader_textures` field.
    pub fn num_shader_textures(&self) -> (r: usize)
        ensures
            r == self.num_shader_textures,
    {
        self.num_shader_textures
    }

    /// Replaces the `num_shader_textures` field.
    pub fn set_num_shader_textures(&mut self, num_shader_textures: usize)
        ensures
            *final(self) == (SceneMetadataView { num_shader_textures, ..*old(self) }),
    {
        self.num_shader_textures = num_shader_textures;
    }

    /// The `element_buffer_size` field.
    pub fn element_buffer_size(&self) -> (r: usize)
        ensures
            r == self.element_buffer_size,
    {
        self.element_buffer_size
    }

    /// Replaces the `element_buffer_size` field.
    pub fn set_element_buffer_size(&mut self, element_buffer_size: usize)
        ensures
            *final(self) == (SceneMetadataView { element_buffer_size, ..*old(self) }),
    {
        self.element_buffer_size = element_buffer_size;
    }

    /// The `max_face_triangles` field.
    pub fn max_face_triangles(&self) -> (r: usize)
        ensures
            r == self.max_face_triangles,
    {
        self.max_face_triangles
    }

    /// Replaces the `max_face_triangles` field.
    pub fn set_max_face_triangles(&mut self, max_face_triangles: usize)
        ensures
            *final(self) == (SceneMetadataView { max_face_triangles, ..*old(self) }),
    {
        self.max_face_triangles = max_face_triangles;
    }

    /// Replaces the `ktime_second` field.
    pub fn set_ktime_second(&mut self, ktime_second: i64)
        ensures
            *final(self) == (SceneMetadataView { ktime_second, ..*old(self) }),
    {
        self.ktime_second = ktime_second;
    }

    /// The `filename` field.
    pub fn filename(&self) -> (r: Vec<u8>)
        ensures
            r@ == self.filename@,
    {
        self.filename.clone()
    }

    /// Replaces the `filename` field.
    pub fn set_filename(&mut self, filename: Vec<u8>)
        ensures
            *final(self) == (SceneMetadataView { filename, ..*old(self) }),
    {
        self.filename = filename;
    }

}

impl Default for LoadOptsView {
    /// Every option off, every count zero and the format unknown.
    fn default() -> (r: Self)
        ensures
            !r.allow_empty_faces,
            !r.allow_missing_vertex_position,
            !r.allow_nodes_out_of_root,
            !r.allow_unsafe,
            !r.clean_skin_weights,
            !r.connect_broken_elements,
            !r.disable_quirks,
            !r.evaluate_caches,
            !r.evaluate_skinning,
            r.file_format == FileFormat::Unknown,
            r.file_format_lookahead == 0,
            r.file_size_estimate == 0,
            !r.force_single_thread_ascii_parsing,
            !r.generate_missing_normals,
            r.geometry_transform_handling == 0,
            r.handedness_conversion_axis == 0,
            !r.handedness_conversion_retain_winding,
            !r.ignore_all_content,
            !r.ignore_animation,
            !r.ignore_embedded,
            !r.ignore_geometry,
            !r.ignore_missing_external_files,
            r.index_error_handling == 0,
            r.inherit_mode_handling == 0,
            !r.load_external_files,
            !r.no_format_from_content,
            !r.no_format_from_extension,
            r.node_depth_limit == 0,
            !r.normalize_normals,
            !r.normalize_tangents,
            !r.obj_merge_groups,
            !r.obj_merge_objects,
            !r.obj_search_mtl_by_filename,
            !r.obj_split_groups,
            !r.open_main_file_with_default,
            r.path_separator == 0,
            r.pivot_handling == 0,
            !r.pivot_handling_retain_empties,
            r.progress_interval_hint == 0,
            r.read_buffer_size == 0,
            !r.retain_dom,
            !r.retain_vertex_attrib_w,
            !r.reverse_winding,
            !r.skip_mesh_parts,
            !r.skip_skin_vertices,
            r.space_conversion == 0,
            !r.strict,
            r.unicode_error_handling == 0,
            !r.use_blender_pbr_material,
            !r.use_root_transform,
    {
        LoadOptsView {
            allow_empty_faces: false,
            allow_missing_vertex_position: false,
            allow_nodes_out_of_root: false,
            allow_unsafe: false,
            clean_skin_weights: false,
            connect_broken_elements: false,
            disable_quirks: false,
            evaluate_caches: false,
            evaluate_skinning: false,
            file_format: FileFormat::Unknown,
            file_format_lookahead: 0,
            file_size_estimate: 0,
            force_single_thread_ascii_parsing: false,
            generate_missing_normals: false,
            geometry_transform_handling: 0,
            handedness_conversion_axis: 0,
            handedness_conversion_retain_winding: false,
            ignore_all_content: false,
            ignore_animation: false,
            ignore_embedded: false,
            ignore_geometry: false,
            ignore_missing_external_files: false,
            index_error_handling: 0,
            inherit_mode_handling: 0,
            load_external_files: false,
            no_format_from_content: false,
            no_format_from_extension: false,
            node_depth_limit: 0,
            normalize_normals: false,
            normalize_tangents: false,
            obj_merge_groups: false,
            obj_merge_objects: false,
            obj_search_mtl_by_filename: false,
            obj_split_groups: false,
            open_main_file_with_default: false,
            path_separator: 0,
            pivot_handling: 0,
            pivot_handling_retain_empties: false,
            progress_interval_hint: 0,
            read_buffer_size: 0,
            retain_dom: false,
            retain_vertex_attrib_w: false,
            reverse_winding: false,
            skip_mesh_parts: false,
            skip_skin_vertices: false,
            space_conversion: 0,
            strict: false,
            unicode_error_handling: 0,
            use_blender_pbr_material: false,
            use_root_transform: false,
        }
    }
}

impl Default for SceneMetadataView {
    /// Every option off, every count zero and the format unknown.
    fn default() -> (r: Self)
        ensures
            r.file_format == FileFormat::Unknown,
            !r.bone_prop_limb_length_relative,
            r.mirror_axis == 0,
            !r.is_unsafe,
            !r.may_contain_no_index,
            !r.may_contain_missing_vertex_position,
            !r.may_contain_broken_elements,
            r.version == 0,
            !r.ascii,
            !r.big_endian,
            !r.geometry_ignored,
            !r.animation_ignored,
            !r.embedded_ignored,
            r.exporter == 0,
            r.exporter_version == 0,
            r.num_shader_textures == 0,
            r.element_buffer_size == 0,
            r.max_face_triangles == 0,
            r.ktime_second == 0,
            r.filename@.len() == 0,
    {
        SceneMetadataView {
            file_format: FileFormat::Unknown,
            bone_prop_limb_length_relative: false,
            mirror_axis: 0,
            is_unsafe: false,
            may_contain_no_index: false,
            may_contain_missing_vertex_position: false,
            may_contain_broken_elements: false,
            version: 0,
            ascii: false,
            big_endian: false,
            geometry_ignored: false,
            animation_ignored: false,
            embedded_ignored: false,
            exporter: 0,
            exporter_version: 0,
            num_shader_textures: 0,
            element_buffer_size: 0,
            max_face_triangles: 0,
            ktime_second: 0,
            filename: Vec::new(),
        }
    }
}

} // verus!
